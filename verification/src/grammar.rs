//! The grammar, as a mathematical function from the lexemes of a source to
//! its syntax tree and diagnostics.
//!
//! The parser is an operator-precedence parser that never fails: on a token
//! that cannot stand where it stands it records a diagnostic, wraps the
//! tokens up to the next one it can go on with in an `Error` node, and
//! continues. Every lexeme ends up in the tree, whitespace and comments
//! included.

use crate::lexer::{tiles, ByteClass, Lexeme, in_class};
use crate::report::{ErrorCode, ModuleID, Note, Report, ReportKind};
use crate::syntax::Tree;
use crate::token::Token;
use vstd::prelude::*;
use vstd::utf8::{is_char_boundary, valid_utf8};

verus! {

/// What the parser reads: the source, its lexemes, and the module that the
/// diagnostics are for.
pub struct Input {
    pub source: Seq<u8>,
    pub lexemes: Seq<Lexeme>,
    pub module: ModuleID,
}

/// State of the parser while it fills one node: the index of the current
/// lexeme, the children gathered so far for the node being filled, and the
/// diagnostics recorded so far.
pub struct Cursor {
    pub pos: int,
    pub elems: Seq<Tree>,
    pub errors: Seq<Report>,
}

impl Input {
    pub open spec fn len(self) -> int {
        self.lexemes.len() as int
    }

    /// Kind of the lexeme at `i`; `EOF` past the last one.
    pub open spec fn kind(self, i: int) -> Token {
        if 0 <= i < self.len() {
            self.lexemes[i].kind
        } else {
            Token::EOF
        }
    }

    /// Offset in the source at which the lexeme at `i` starts; the length
    /// of the source past the last one.
    pub open spec fn offset(self, i: int) -> int {
        if 0 <= i < self.len() {
            self.lexemes[i].start as int
        } else {
            self.source.len() as int
        }
    }

    /// Offset in the source at which the lexeme at `i` ends.
    pub open spec fn offset_end(self, i: int) -> int {
        if 0 <= i < self.len() {
            self.lexemes[i].end as int
        } else {
            self.source.len() as int
        }
    }

    /// The leaf for the lexeme at `i`; past the last one, an empty `EOF`
    /// leaf at the end of the source.
    pub open spec fn leaf(self, i: int) -> Tree {
        Tree::Leaf {
            kind: self.kind(i),
            start: self.offset(i),
            end: self.offset_end(i),
            text: if 0 <= i < self.len() {
                self.source.subrange(self.offset(i), self.offset_end(i))
            } else {
                Seq::empty()
            },
        }
    }

    /// The leaves for the lexemes from `a` up to `b`.
    pub open spec fn leaves(self, a: int, b: int) -> Seq<Tree> {
        Seq::new((b - a) as nat, |j: int| self.leaf(a + j))
    }

    /// Index of the first lexeme at or after `i` that is neither whitespace
    /// nor a comment.
    pub open spec fn trivia_end(self, i: int) -> int
        decreases self.len() - i,
    {
        if 0 <= i < self.len() && self.lexemes[i].kind.is_trivia() {
            self.trivia_end(i + 1)
        } else {
            i
        }
    }

    /// Index of the first lexeme at or after `i` of kind `kind`; the number
    /// of lexemes if there is none.
    pub open spec fn find(self, i: int, kind: Token) -> int
        decreases self.len() - i,
    {
        if 0 <= i < self.len() && self.lexemes[i].kind != kind {
            self.find(i + 1, kind)
        } else {
            i
        }
    }

    /// The diagnostic for the unexpected lexeme at `i`.
    pub open spec fn unexpected(self, i: int, expected: Option<Token>) -> Report {
        Report {
            kind: ReportKind::Error,
            code: ErrorCode::UnexpectedToken,
            module: self.module,
            offset: self.offset(i) as usize,
            label: Some((self.offset(i) as usize, self.offset_end(i) as usize)),
            expected,
            wanted: None,
            note: Note::Absent,
        }
    }

    /// `c` with its position brought into `lo..=len`. The parser only ever
    /// moves forward, so this changes nothing where it is applied: it is
    /// there to show that the definitions below are well founded.
    pub open spec fn adv(self, c: Cursor, lo: int) -> Cursor {
        Cursor {
            pos: if c.pos < lo {
                lo
            } else if c.pos > self.len() {
                self.len()
            } else {
                c.pos
            },
            ..c
        }
    }

    /// Takes the current lexeme into the node being filled and moves on. At
    /// the end of the input this adds an empty `EOF` leaf and stays.
    pub open spec fn bump(self, c: Cursor) -> Cursor {
        Cursor {
            pos: if c.pos < self.len() { c.pos + 1 } else { c.pos },
            elems: c.elems.push(self.leaf(c.pos)),
            errors: c.errors,
        }
    }

    /// Takes whitespace and comments into the node being filled.
    pub open spec fn eat_ws(self, c: Cursor) -> Cursor {
        Cursor {
            pos: self.trivia_end(c.pos),
            elems: c.elems + self.leaves(c.pos, self.trivia_end(c.pos)),
            errors: c.errors,
        }
    }

    /// Records a diagnostic for the current lexeme, which cannot stand where
    /// it stands; `expected` is the kind that was looked for, if it was one.
    pub open spec fn complain(self, c: Cursor, expected: Option<Token>) -> Cursor {
        Cursor { errors: c.errors.push(self.unexpected(c.pos, expected)), ..c }
    }

    /// Moves on to the next lexeme of kind `kind`, or to the end of the
    /// input. What is skipped goes into one `Error` node of the node being
    /// filled, with one diagnostic at the first lexeme skipped. Where
    /// nothing is skipped and the input is at its end, the diagnostic is for
    /// the end of the input.
    pub open spec fn expect(self, c: Cursor, kind: Token) -> Cursor {
        let end = self.find(c.pos, kind);
        if end > c.pos {
            Cursor {
                pos: end,
                elems: c.elems.push(Tree::node(Token::Error, self.leaves(c.pos, end))),
                errors: c.errors.push(self.unexpected(c.pos, Some(kind))),
            }
        } else if self.kind(c.pos) != kind {
            self.complain(c, Some(kind))
        } else {
            c
        }
    }

    /// Takes the current lexeme as the closing token `kind` of the node
    /// being filled. If it is another, which it is at the end of the input,
    /// that gets a diagnostic: the node was never closed.
    pub open spec fn close_with(self, c: Cursor, kind: Token) -> Cursor {
        self.bump(
            if self.kind(c.pos) != kind {
                self.complain(c, Some(kind))
            } else {
                c
            },
        )
    }

    /// Before the opening token `kind` of a node: a lexeme of another kind
    /// is taken in its place, with a diagnostic. At the end of the input
    /// nothing is recorded here: what looked for the token did so.
    pub open spec fn open_with(self, c: Cursor, kind: Token) -> Cursor {
        if 0 <= c.pos < self.len() && self.kind(c.pos) != kind {
            self.complain(c, Some(kind))
        } else {
            c
        }
    }

    /// A cursor for the children of a new node that starts with the
    /// children of `c` from index `from` on.
    pub open spec fn open_at(self, c: Cursor, from: int) -> Cursor {
        Cursor { pos: c.pos, elems: c.elems.subrange(from, c.elems.len() as int), errors: c.errors }
    }

    /// A cursor for the children of a new, empty node.
    pub open spec fn open(self, c: Cursor) -> Cursor {
        Cursor { pos: c.pos, elems: Seq::empty(), errors: c.errors }
    }

    /// Closes the node of kind `kind` that `inner` has filled, and adds it
    /// to the children `outer`.
    pub open spec fn close(self, outer: Seq<Tree>, kind: Token, inner: Cursor) -> Cursor {
        Cursor {
            pos: inner.pos,
            elems: outer.push(Tree::node(kind, inner.elems)),
            errors: inner.errors,
        }
    }

    /// A node of kind `kind` that holds the current lexeme alone.
    pub open spec fn leaf_node(self, c: Cursor, kind: Token) -> Cursor {
        self.close(c.elems, kind, self.bump(self.open(c)))
    }

    /// Start of a node: the current lexeme, then whitespace.
    pub open spec fn enter(self, c: Cursor) -> Cursor {
        self.eat_ws(self.bump(self.open(c)))
    }

    /// Start of a node that wraps the children of `c` from `from` on: those
    /// children, the current lexeme, then whitespace.
    pub open spec fn enter_at(self, c: Cursor, from: int) -> Cursor {
        self.eat_ws(self.bump(self.open_at(c, from)))
    }

    /// Whether a loop over the items of a bracketed list ends at `i`: at
    /// the closing token or at the end of the input.
    pub open spec fn at_close(self, i: int, close: Token) -> bool {
        self.kind(i) == close || self.kind(i) == Token::EOF
    }

    /// After an item of a list: a separator and whitespace, or else on to
    /// the closing token.
    pub open spec fn separator(self, c: Cursor, sep: Token, close: Token) -> Cursor {
        if self.kind(c.pos) == sep {
            self.eat_ws(self.bump(c))
        } else {
            self.expect(c, close)
        }
    }

    /// `name [":" type]`, where a type is a name or `{ field, ... }`.
    pub open spec fn field_def(self, c: Cursor) -> Cursor
        decreases self.len() - c.pos, 1int,
    {
        if !(0 <= c.pos < self.len()) {
            self.close(c.elems, Token::FieldType, self.enter(c))
        } else {
            let c1 = self.expect(c, Token::IDENT);
            let a = self.enter(c1);
            let inner = if self.kind(a.pos) != Token::COLON {
                a
            } else {
                let b = self.eat_ws(self.bump(a));
                if self.kind(b.pos) == Token::IDENT {
                    self.leaf_node(b, Token::Literal)
                } else if self.kind(b.pos) == Token::LBRACE {
                    self.struct_def(self.adv(b, c.pos + 1))
                } else {
                    b
                }
            };
            self.close(c1.elems, Token::FieldType, inner)
        }
    }

    /// `{ field, ... }`, the current lexeme being the opening brace.
    pub open spec fn struct_def(self, c: Cursor) -> Cursor
        decreases self.len() - c.pos, 0int,
    {
        let a = self.enter(c);
        let b = if 0 <= c.pos < self.len() {
            self.struct_def_fields(self.adv(a, c.pos + 1))
        } else {
            a
        };
        self.close(c.elems, Token::StructType, self.close_with(b, Token::RBRACE))
    }

    /// The fields of a struct type, up to its closing brace.
    pub open spec fn struct_def_fields(self, c: Cursor) -> Cursor
        decreases self.len() - c.pos, 2int,
    {
        if !(0 <= c.pos < self.len()) || self.at_close(c.pos, Token::RBRACE) {
            c
        } else {
            let a = self.eat_ws(self.field_def(c));
            let b = self.separator(a, Token::COMMA, Token::RBRACE);
            self.struct_def_fields(self.adv(b, c.pos + 1))
        }
    }

    /// An expression: a primary, then the infix operators that bind at
    /// least as tightly as `min_bp`. The flag says whether the expression is
    /// a block, a query, an `if` or a `while` with no operator after it: such
    /// a statement needs no semicolon.
    pub open spec fn expr(self, c: Cursor, min_bp: u8) -> (Cursor, bool)
        decreases self.len() - c.pos, 3int,
    {
        if !(0 <= c.pos <= self.len()) {
            (c, false)
        } else {
            let k = self.kind(c.pos);
            let from = c.elems.len() as int;
            let lo = c.pos + 1;
            let (p, block) = if k == Token::NUMBER {
                (self.leaf_node(c, Token::Literal), false)
            } else if k == Token::IDENT {
                let a = self.eat_ws(self.leaf_node(c, Token::Literal));
                if self.kind(a.pos) == Token::LBRACE {
                    let b = self.struct_fields(self.adv(self.enter_at(a, from), lo));
                    (self.close(c.elems, Token::Struct, self.close_with(b, Token::RBRACE)), false)
                } else {
                    (a, false)
                }
            } else if k == Token::QUERY {
                (self.query(c), true)
            } else if k == Token::LPAREN {
                let a = self.expr(self.adv(self.enter(c), lo), 0).0;
                let b = self.bump(self.expect(a, Token::RPAREN));
                (self.close(c.elems, Token::Paren, b), false)
            } else if k == Token::LBRACE {
                (self.block(c), true)
            } else if k == Token::DEL {
                let a = self.expr(self.adv(self.enter(c), lo), 0).0;
                (self.close(c.elems, Token::Del, a), false)
            } else if k == Token::IF {
                let a = self.eat_ws(self.expr(self.adv(self.enter(c), lo), 0).0);
                let b = self.eat_ws(self.block(self.adv(a, lo)));
                let d = if self.kind(b.pos) == Token::ELSE {
                    self.block(self.adv(self.eat_ws(self.bump(b)), lo))
                } else {
                    b
                };
                (self.close(c.elems, Token::If, d), true)
            } else if k == Token::WHILE {
                let a = self.eat_ws(self.expr(self.adv(self.enter(c), lo), 0).0);
                let b = self.block(self.adv(a, lo));
                (self.close(c.elems, Token::While, b), true)
            } else if k == Token::LET {
                let a = self.expr(self.adv(self.enter(c), lo), 3).0;
                let b = self.eat_ws(self.bump(self.expect(a, Token::EQ)));
                let d = self.expr(self.adv(b, lo), 0).0;
                (self.close(c.elems, Token::Let, d), false)
            } else if k == Token::LBRACKET {
                let a = self.expr(self.adv(self.enter(c), lo), 0).0;
                let b = self.bump(self.expect(a, Token::RBRACKET));
                (self.close(c.elems, Token::ResourceAccess, b), false)
            } else if k.prefix_binding_power().is_some() {
                let a = self.expr(
                    self.adv(self.enter(c), lo),
                    k.prefix_binding_power().unwrap(),
                ).0;
                (self.close(c.elems, Token::Prefix, a), false)
            } else {
                (self.complain(c, None), false)
            };
            self.infix(self.adv(p, c.pos), from, min_bp, block)
        }
    }

    /// The infix operators after a primary whose first child stands at
    /// index `from` of the node being filled. Each operator that binds at
    /// least as tightly as `min_bp` wraps what stands from `from` on,
    /// itself and its right-hand side into one node.
    pub open spec fn infix(self, c: Cursor, from: int, min_bp: u8, block: bool) -> (Cursor, bool)
        decreases self.len() - c.pos, 2int,
    {
        let a = self.eat_ws(c);
        let k = self.kind(a.pos);
        if !(0 <= c.pos < self.len()) || !(c.pos <= a.pos < self.len()) || !(0 <= from
            <= a.elems.len()) {
            (a, block)
        } else {
            match k.infix_binding_power() {
                None => (a, block),
                Some((l_bp, r_bp)) => {
                    if l_bp < min_bp {
                        (a, block)
                    } else {
                        let outer = a.elems.subrange(0, from);
                        let inner = self.adv(self.enter_at(a, from), c.pos + 1);
                        let wrapped = if k == Token::LBRACKET {
                            let b = self.expr(inner, 0).0;
                            self.close(
                                outer,
                                Token::ComponentAccess,
                                self.bump(self.expect(b, Token::RBRACKET)),
                            )
                        } else if k == Token::LPAREN {
                            self.close(
                                outer,
                                Token::Call,
                                self.close_with(self.call_args(inner), Token::RPAREN),
                            )
                        } else {
                            self.close(outer, Token::Infix, self.expr(inner, r_bp).0)
                        };
                        self.infix(self.adv(wrapped, c.pos + 1), from, min_bp, false)
                    }
                },
            }
        }
    }

    /// The arguments of a call, up to its closing parenthesis.
    pub open spec fn call_args(self, c: Cursor) -> Cursor
        decreases self.len() - c.pos, 4int,
    {
        if !(0 <= c.pos < self.len()) || self.at_close(c.pos, Token::RPAREN) {
            c
        } else {
            let a = self.eat_ws(self.expr(c, 0).0);
            let b = self.separator(a, Token::COMMA, Token::RPAREN);
            self.call_args(self.adv(b, c.pos + 1))
        }
    }

    /// The fields of a struct literal, `name: expr, ...`, up to its closing
    /// brace.
    pub open spec fn struct_fields(self, c: Cursor) -> Cursor
        decreases self.len() - c.pos, 4int,
    {
        if !(0 <= c.pos < self.len()) || self.at_close(c.pos, Token::RBRACE) {
            c
        } else {
            let a = self.eat_ws(self.bump(self.expect(c, Token::IDENT)));
            let b = self.eat_ws(self.bump(self.expect(a, Token::COLON)));
            let d = self.expr(self.adv(b, c.pos), 0).0;
            let e = self.separator(d, Token::COMMA, Token::RBRACE);
            self.struct_fields(self.adv(e, c.pos + 1))
        }
    }

    /// `{ statement; ... }`. The first lexeme is taken as the opening brace
    /// whatever it is, and the lexeme after the statements as the closing
    /// one.
    pub open spec fn block(self, c: Cursor) -> Cursor
        decreases self.len() - c.pos, 0int,
    {
        let opened = self.open_with(c, Token::LBRACE);
        let a = self.enter(opened);
        let b = if 0 <= c.pos < self.len() {
            self.block_items(self.adv(a, c.pos + 1))
        } else {
            a
        };
        self.close(c.elems, Token::Block, self.close_with(b, Token::RBRACE))
    }

    /// The statements of a block, up to its closing brace. A statement ends
    /// with a semicolon, unless it is itself a block, a query, an `if` or a
    /// `while`.
    pub open spec fn block_items(self, c: Cursor) -> Cursor
        decreases self.len() - c.pos, 4int,
    {
        if !(0 <= c.pos < self.len()) || self.at_close(c.pos, Token::RBRACE) {
            c
        } else {
            let (p, block) = self.expr(c, 0);
            let a = self.eat_ws(p);
            let b = if self.kind(a.pos) == Token::SEMICOLON {
                self.eat_ws(self.bump(a))
            } else if !block {
                self.expect(a, Token::RBRACE)
            } else {
                a
            };
            self.block_items(self.adv(b, c.pos + 1))
        }
    }

    /// `query [name] { ... }`.
    pub open spec fn query(self, c: Cursor) -> Cursor
        decreases self.len() - c.pos, 1int,
    {
        let a = self.enter(c);
        let b = if self.kind(a.pos) == Token::IDENT {
            self.eat_ws(self.bump(a))
        } else {
            a
        };
        let d = self.expect(b, Token::LBRACE);
        let e = if 0 <= c.pos < self.len() {
            self.block(self.adv(d, c.pos + 1))
        } else {
            d
        };
        self.close(c.elems, Token::Query, e)
    }

    /// `sys [name] { ... }`.
    pub open spec fn system(self, c: Cursor) -> Cursor {
        let a = self.enter(c);
        let b = if self.kind(a.pos) == Token::IDENT {
            self.eat_ws(self.bump(a))
        } else {
            a
        };
        self.close(c.elems, Token::System, self.block(self.expect(b, Token::LBRACE)))
    }

    /// `use name`.
    pub open spec fn import(self, c: Cursor) -> Cursor {
        self.close(c.elems, Token::Import, self.bump(self.expect(self.enter(c), Token::IDENT)))
    }

    /// One top-level item: a component, a resource, a system or an import.
    /// Any other lexeme becomes an `Error` node of its own, with a
    /// diagnostic.
    pub open spec fn item(self, c: Cursor) -> Cursor {
        let k = self.kind(c.pos);
        if k == Token::COMP {
            self.close(c.elems, Token::Component, self.field_def(self.enter(c)))
        } else if k == Token::RES {
            self.close(c.elems, Token::Resource, self.field_def(self.enter(c)))
        } else if k == Token::SYS {
            self.system(c)
        } else if k == Token::USE {
            self.import(c)
        } else {
            self.leaf_node(self.complain(c, None), Token::Error)
        }
    }

    /// The items of a source, up to its end.
    pub open spec fn items(self, c: Cursor) -> Cursor
        decreases self.len() - c.pos,
    {
        if !(0 <= c.pos < self.len()) {
            c
        } else {
            self.items(self.adv(self.eat_ws(self.item(c)), c.pos + 1))
        }
    }

    /// The cursor at the end of the source: its children are those of the
    /// root.
    pub open spec fn root_cursor(self) -> Cursor {
        self.items(self.eat_ws(Cursor { pos: 0, elems: Seq::empty(), errors: Seq::empty() }))
    }

    /// The syntax tree of the source. The root spans the whole source.
    pub open spec fn tree(self) -> Tree {
        Tree::Node {
            kind: Token::Root,
            start: 0,
            end: self.source.len() as int,
            children: self.root_cursor().elems,
        }
    }

    /// The diagnostics of the source, in the order in which they arise.
    pub open spec fn errors(self) -> Seq<Report> {
        self.root_cursor().errors
    }
}


impl Input {
    /// Whether the input is one that the parser is made for: a source in
    /// UTF-8 that its lexemes tile.
    pub open spec fn wf(self) -> bool {
        &&& valid_utf8(self.source)
        &&& self.source.len() <= usize::MAX
        &&& tiles(self.source, self.lexemes, 0)
    }

    /// Lexemes follow each other without a gap.
    pub proof fn lemma_offset_next(self, i: int)
        requires
            self.wf(),
            0 <= i < self.len(),
        ensures
            self.offset_end(i) == self.offset(i + 1),
            0 <= self.offset(i) < self.offset_end(i) <= self.source.len(),
    {
        if i < self.len() - 1 {
            assert(self.lexemes[i].end == self.lexemes[i + 1].start);
        } else {
            assert(self.lexemes.last() == self.lexemes[i]);
        }
    }

    /// Offsets grow with the index.
    pub proof fn lemma_offset_mono(self, i: int, j: int)
        requires
            self.wf(),
            0 <= i <= j,
        ensures
            0 <= self.offset(i) <= self.offset(j) <= self.source.len(),
        decreases j - i,
    {
        if i < self.len() {
            self.lemma_offset_next(i);
        }
        if i < j {
            if i < self.len() {
                self.lemma_offset_mono(i + 1, j);
            }
        }
        if j < self.len() {
            self.lemma_offset_next(j);
        }
    }

    /// Every lexeme starts and ends between two characters.
    pub proof fn lemma_boundaries(self, i: int)
        requires
            self.wf(),
            0 <= i < self.len(),
        ensures
            is_char_boundary(self.source, self.offset(i)),
            is_char_boundary(self.source, self.offset_end(i)),
        decreases i,
    {
        let s = self.source;
        vstd::utf8::is_char_boundary_start_end_of_seq(s);
        let e = self.offset_end(i);
        let l = self.lexemes[i];
        assert(l.start < l.end <= s.len());
        if e < s.len() {
            vstd::utf8::is_char_boundary_iff_not_is_continuation_byte(s, e);
        }
        if i > 0 {
            self.lemma_boundaries(i - 1);
            self.lemma_offset_next(i - 1);
        }
    }
}

} // verus!

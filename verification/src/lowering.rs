//! What it means for nodes of the intermediate representation to be the
//! lowering of a syntax tree.
//!
//! Lowering allocates the parts of a construct before the construct itself,
//! so a node stands behind everything that it refers to. The relations below
//! speak of an arena whose last node is the one in question.
//!
//! Lowering never fails on a tree: a part that is missing becomes a poison
//! expression, for which there is one diagnostic, and every item of the
//! tree has a node. Each node has the source range of what it was lowered
//! from; only the poison of a part that is not there has none.

use crate::ast::{NodeClass, TokenClass};
use crate::hir::{Expr, IdentModel, Identifier, NodeIdx, Node, Operator, StructType, System, TypedIdent};
use crate::syntax::Tree;
use crate::token::Token;
use vstd::prelude::*;
use vstd::utf8::encode_utf8;

verus! {

/// Byte range of a node in the source of its module.
pub type Span = (usize, usize);

/// The nodes of a module with the source range of each, where it has one.
pub struct Ir {
    pub nodes: Seq<Node>,
    pub spans: Seq<Option<Span>>,
}

/// The operator that a prefix token stands for.
pub open spec fn unary_operator(k: Token) -> Option<Operator> {
    match k {
        Token::MINUS => Some(Operator::Neg),
        Token::EXCLAMATION => Some(Operator::Not),
        _ => None,
    }
}

/// The operator that an infix token stands for, where it stands for a
/// call of that operator.
pub open spec fn binary_operator(k: Token) -> Option<Operator> {
    match k {
        Token::PLUS => Some(Operator::Add),
        Token::MINUS => Some(Operator::Sub),
        Token::STAR => Some(Operator::Mul),
        Token::SLASH => Some(Operator::Div),
        Token::EQEQ => Some(Operator::Eq),
        Token::LESS => Some(Operator::Less),
        Token::LESSEQ => Some(Operator::LessEq),
        Token::GREATER => Some(Operator::Greater),
        Token::GREATEREQ => Some(Operator::GreaterEq),
        Token::OROR => Some(Operator::Or),
        Token::ANDAND => Some(Operator::And),
        _ => None,
    }
}

/// The operator of a compound assignment.
pub open spec fn assign_operator(k: Token) -> Option<Operator> {
    match k {
        Token::PLUSEQ => Some(Operator::Add),
        Token::MINUSEQ => Some(Operator::Sub),
        Token::STAREQ => Some(Operator::Mul),
        Token::SLASHEQ => Some(Operator::Div),
        _ => None,
    }
}

/// The trees but the first.
pub open spec fn all_but_first(ts: Seq<Tree>) -> Seq<Tree> {
    if ts.len() > 0 {
        ts.skip(1)
    } else {
        ts
    }
}

/// The source range of a tree.
pub open spec fn span_of(t: Tree) -> Option<Span> {
    Some((t.start() as usize, t.end() as usize))
}

/// Whether `name` is the text `text`, if there is one.
pub open spec fn is_name(name: Option<String>, text: Option<Seq<u8>>) -> bool {
    match (name, text) {
        (Some(n), Some(t)) => encode_utf8(n@) == t,
        (None, None) => true,
        _ => false,
    }
}

/// Whether a type can be lowered: a type given by name must have the name.
pub open spec fn type_lowers(t: Tree) -> bool {
    t.kind() == Token::Literal ==> t.token_text(Token::IDENT).is_some()
}

/// Whether a field can be lowered: it has a name and a type that can be.
pub open spec fn field_lowers(f: Tree) -> bool {
    &&& f.token_text(Token::IDENT).is_some()
    &&& f.nth(NodeClass::Type, 0).is_some()
    &&& type_lowers(f.nth(NodeClass::Type, 0).unwrap())
}

/// Those of the fields `fs` that can be lowered, in order.
pub open spec fn fields_that_lower(fs: Seq<Tree>) -> Seq<Tree>
    decreases fs.len(),
{
    if fs.len() == 0 {
        Seq::empty()
    } else if field_lowers(fs.last()) {
        fields_that_lower(fs.drop_last()).push(fs.last())
    } else {
        fields_that_lower(fs.drop_last())
    }
}

/// Whether an item can be lowered: a system needs a body, a component or
/// resource a field that can be lowered, an import a name. An item that
/// cannot be lowered is lowered to the mark of a missing part, with a
/// diagnostic.
pub open spec fn item_lowers(t: Tree) -> bool {
    if t.kind() == Token::System {
        t.nth(NodeClass::Exactly(Token::Block), 0).is_some()
    } else if t.kind() == Token::Import {
        t.token_text(Token::IDENT).is_some()
    } else {
        &&& t.nth(NodeClass::Exactly(Token::FieldType), 0).is_some()
        &&& field_lowers(t.nth(NodeClass::Exactly(Token::FieldType), 0).unwrap())
    }
}

/// The size of an expression that may be missing.
pub open spec fn tree_size(e: Option<Tree>) -> nat {
    match e {
        Some(t) => t.size(),
        None => 0,
    }
}

impl Ir {
    pub open spec fn len(self) -> int {
        self.nodes.len() as int
    }

    /// The first `n` nodes.
    pub open spec fn take(self, n: int) -> Ir {
        Ir { nodes: self.nodes.take(n), spans: self.spans.take(n) }
    }

    /// The nodes up to and including the one at `i`.
    pub open spec fn upto(self, i: NodeIdx) -> Ir {
        self.take(i + 1)
    }

    /// The last node: the one in question.
    pub open spec fn root(self) -> Node {
        self.nodes.last()
    }

    pub open spec fn root_span(self) -> Option<Span> {
        self.spans.last()
    }

    /// Whether `i` is the index of a node before the last.
    pub open spec fn before_root(self, i: NodeIdx) -> bool {
        i < self.len() - 1
    }

    /// Whether every node has a place for its span, and there is a node.
    pub open spec fn shaped(self) -> bool {
        self.nodes.len() > 0 && self.spans.len() == self.nodes.len()
    }

    /// The last node is a poison expression without a span: the mark of a
    /// part that is missing, for which a diagnostic was recorded.
    pub open spec fn is_missing(self) -> bool {
        &&& self.shaped()
        &&& self.root() matches Node::Expr(Expr::Poison)
        &&& self.root_span().is_none()
    }

    /// The last node is the identifier of operator `op`, with the span of
    /// the token `token`.
    pub open spec fn is_operator(self, op: Operator, token: Tree) -> bool {
        &&& self.shaped()
        &&& self.root() matches Node::Expr(Expr::Identifier(Identifier::Operator(o)))
        &&& o == op
        &&& self.root_span() == span_of(token)
    }

    /// The last node is a call of `op` with the arguments `args`, with the
    /// span of `tree`.
    pub open spec fn is_call_of(self, op: Operator, token: Tree, args: Seq<NodeIdx>, tree: Tree) -> bool {
        &&& self.shaped()
        &&& self.root_span() == span_of(tree)
        &&& match self.root() {
            Node::Expr(Expr::FunctionCall { function, args: a }) => {
                &&& a@ == args
                &&& self.before_root(function)
                &&& self.upto(function).is_operator(op, token)
            },
            _ => false,
        }
    }

    /// The last node is the lowering of the expression `e`; `None` is an
    /// expression that is missing. Parentheses make no node of their own:
    /// the lowering of `(e)` is that of `e`.
    pub open spec fn is_expr(self, e: Option<Tree>) -> bool
        decreases self.nodes.len(), 3int, 2 * tree_size(e) + 1,
    {
        match e {
            None => self.is_missing(),
            Some(t) => {
                let k = t.kind();
                if k == Token::Prefix {
                    self.is_unary(t)
                } else if k == Token::Infix {
                    self.is_binary(t)
                } else if k == Token::Literal {
                    self.is_literal(t)
                } else if k == Token::Paren {
                    self.is_paren(t)
                } else {
                    self.is_compound(t)
                }
            },
        }
    }

    /// The last node is the lowering of the expression between the
    /// parentheses of `t`.
    pub open spec fn is_paren(self, t: Tree) -> bool
        decreases self.nodes.len(), 3int, 2 * t.size(),
    {
        match t.nth(NodeClass::Expr, 0) {
            Some(x) => x.size() < t.size() && self.is_expr(Some(x)),
            None => self.is_missing(),
        }
    }

    /// The last node is the lowering of the literal `t`: a name, a number,
    /// or poison where it is neither. Poison comes with a diagnostic, here
    /// and for a query that does not name its entity.
    pub open spec fn is_literal(self, t: Tree) -> bool {
        &&& self.shaped()
        &&& self.root_span() == span_of(t)
        &&& match self.root() {
            Node::Expr(Expr::Identifier(Identifier::Name(s))) => is_name(
                Some(s),
                t.token_text(Token::IDENT),
            ),
            Node::Expr(Expr::Number(s)) => t.token_text(Token::IDENT).is_none() && is_name(
                Some(s),
                t.token_text(Token::NUMBER),
            ),
            Node::Expr(Expr::Poison) => t.token_text(Token::IDENT).is_none() && t.token_text(
                Token::NUMBER,
            ).is_none(),
            _ => false,
        }
    }

    /// The last node is the lowering of the prefix expression `t`: a call
    /// of its operator with its operand. Without an operator that can be
    /// called it is a missing expression.
    pub open spec fn is_unary(self, t: Tree) -> bool
        decreases self.nodes.len(), 2int,
    {
        match t.token(TokenClass::PrefixOp) {
            Some(op) => match unary_operator(op.kind()) {
                Some(o) => {
                    &&& self.shaped()
                    &&& match self.root() {
                        Node::Expr(Expr::FunctionCall { function: _, args }) => {
                            &&& args@.len() == 1
                            &&& self.before_root(args@[0])
                            &&& self.upto(args@[0]).is_expr(t.nth(NodeClass::Expr, 0))
                            &&& self.is_call_of(o, op, args@, t)
                        },
                        _ => false,
                    }
                },
                None => self.is_missing(),
            },
            None => self.is_missing(),
        }
    }

    /// The last node is the lowering of the infix expression `t`: a member
    /// access for `.`, an assignment for `=`, for a compound assignment
    /// `a op= b` the assignment to `a` of the call of `op` with `a` and
    /// `b`, and for any other operator the call of it with both operands.
    /// Without an operator that can be lowered it is a missing expression.
    pub open spec fn is_binary(self, t: Tree) -> bool
        decreases self.nodes.len(), 2int,
    {
        let left = t.nth(NodeClass::Expr, 0);
        let right = t.nth(NodeClass::Expr, 1);
        match t.token(TokenClass::InfixOp) {
            None => self.is_missing(),
            Some(op) => {
                let k = op.kind();
                if k == Token::DOT {
                    &&& self.shaped()
                    &&& self.root_span() == span_of(t)
                    &&& match self.root() {
                        Node::Expr(Expr::MemberAccess { base, member }) => self.is_pair(
                            base,
                            left,
                            member,
                            right,
                        ),
                        _ => false,
                    }
                } else if k == Token::EQ {
                    &&& self.shaped()
                    &&& self.root_span() == span_of(t)
                    &&& match self.root() {
                        Node::Expr(Expr::Assign { lvalue, expr }) => self.is_pair(
                            lvalue,
                            left,
                            expr,
                            right,
                        ),
                        _ => false,
                    }
                } else if assign_operator(k).is_some() {
                    &&& self.shaped()
                    &&& self.root_span() == span_of(t)
                    &&& match self.root() {
                        Node::Expr(Expr::Assign { lvalue, expr }) => {
                            &&& self.before_root(expr)
                            &&& match self.nodes[expr as int] {
                                Node::Expr(Expr::FunctionCall { function: _, args }) => {
                                    &&& args@.len() == 2
                                    &&& args@[0] == lvalue
                                    &&& self.upto(expr).is_pair(args@[0], left, args@[1], right)
                                    &&& self.upto(expr).is_call_of(
                                        assign_operator(k).unwrap(),
                                        op,
                                        args@,
                                        t,
                                    )
                                },
                                _ => false,
                            }
                        },
                        _ => false,
                    }
                } else if binary_operator(k).is_some() {
                    &&& self.shaped()
                    &&& match self.root() {
                        Node::Expr(Expr::FunctionCall { function: _, args }) => {
                            &&& args@.len() == 2
                            &&& self.is_pair(args@[0], left, args@[1], right)
                            &&& self.is_call_of(binary_operator(k).unwrap(), op, args@, t)
                        },
                        _ => false,
                    }
                } else {
                    self.is_missing()
                }
            },
        }
    }

    /// The nodes at `a` and `b` stand before the last and are the
    /// lowerings of `x` and `y`.
    pub open spec fn is_pair(self, a: NodeIdx, x: Option<Tree>, b: NodeIdx, y: Option<Tree>) -> bool
        decreases self.nodes.len(), 1int,
    {
        &&& self.before_root(a)
        &&& self.before_root(b)
        &&& self.upto(a).is_expr(x)
        &&& self.upto(b).is_expr(y)
    }

    /// The nodes at `ids` stand before the last and are the lowerings of
    /// the expressions `es`, one for one.
    pub open spec fn are_exprs(self, ids: Seq<NodeIdx>, es: Seq<Tree>) -> bool
        decreases self.nodes.len(), 1int,
    {
        &&& ids.len() == es.len()
        &&& forall|k: int|
            0 <= k < ids.len() ==> self.before_root(#[trigger] ids[k]) && self.upto(
                ids[k],
            ).is_expr(Some(es[k]))
    }

    /// The last node is the lowering of `t`, an expression that is neither
    /// a literal nor made with an operator.
    pub open spec fn is_compound(self, t: Tree) -> bool
        decreases self.nodes.len(), 2int,
    {
        let k = t.kind();
        let e0 = t.nth(NodeClass::Expr, 0);
        let e1 = t.nth(NodeClass::Expr, 1);
        if k == Token::Struct && (t.nth(NodeClass::Exactly(Token::Literal), 0).is_none() || t.nth(
            NodeClass::Exactly(Token::Literal),
            0,
        ).unwrap().token_text(Token::IDENT).is_none()) {
            self.is_missing()
        } else {
            &&& self.shaped()
            &&& self.root_span() == span_of(t)
            &&& match self.root() {
                Node::Expr(Expr::Query { entity, block }) => {
                    &&& k == Token::Query
                    &&& is_name(Some(entity), t.token_text(Token::IDENT))
                    &&& self.before_root(block)
                    &&& self.upto(block).is_expr(t.nth(NodeClass::Exactly(Token::Block), 0))
                },
                Node::Expr(Expr::Poison) => k == Token::Query && t.token_text(
                    Token::IDENT,
                ).is_none(),
                Node::Expr(Expr::Block(ids)) => k == Token::Block && self.are_exprs(
                    ids@,
                    t.nodes(NodeClass::Expr),
                ),
                Node::Expr(Expr::ComponentAccess { entity, component }) => k
                    == Token::ComponentAccess && self.is_pair(entity, e0, component, e1),
                Node::Expr(Expr::ResourceAccess { resource }) => {
                    &&& k == Token::ResourceAccess
                    &&& self.before_root(resource)
                    &&& self.upto(resource).is_expr(e0)
                },
                Node::Expr(Expr::Let { lvalue, expr }) => k == Token::Let && self.is_pair(
                    lvalue,
                    e0,
                    expr,
                    e1,
                ),
                Node::Expr(Expr::Del { expr }) => {
                    &&& k == Token::Del
                    &&& self.before_root(expr)
                    &&& self.upto(expr).is_expr(e0)
                },
                Node::Expr(Expr::If { cond, expr, otherwise }) => {
                    &&& k == Token::If
                    &&& self.is_pair(cond, e0, expr, e1)
                    &&& otherwise.is_some() == t.token(TokenClass::Exactly(Token::ELSE)).is_some()
                    &&& otherwise.is_some() ==> self.before_root(otherwise.unwrap())
                        && self.upto(otherwise.unwrap()).is_expr(t.nth(NodeClass::Expr, 2))
                },
                Node::Expr(Expr::While { cond, expr }) => k == Token::While && self.is_pair(
                    cond,
                    e0,
                    expr,
                    e1,
                ),
                Node::Expr(Expr::FunctionCall { function, args }) => {
                    &&& k == Token::Call
                    &&& self.before_root(function)
                    &&& self.upto(function).is_expr(e0)
                    &&& self.are_exprs(args@, all_but_first(t.nodes(NodeClass::Expr)))
                },
                Node::Expr(Expr::Struct { ident, fields }) => {
                    let pairs = Tree::field_pairs(t.children(), 0);
                    &&& k == Token::Struct
                    &&& ident matches Identifier::Name(s)
                    &&& is_name(
                        Some(s),
                        t.nth(NodeClass::Exactly(Token::Literal), 0).unwrap().token_text(
                            Token::IDENT,
                        ),
                    )
                    &&& fields@.len() == pairs.len()
                    &&& forall|i: int|
                        0 <= i < fields@.len() ==> {
                            &&& encode_utf8((#[trigger] fields@[i]).0@) == pairs[i].0.leaf_text()
                            &&& self.before_root(fields@[i].1)
                            &&& self.upto(fields@[i].1).is_expr(Some(pairs[i].1))
                        }
                },
                _ => false,
            }
        }
    }

    /// The last node is the lowering of the type `t`, which can be lowered.
    pub open spec fn is_type(self, t: Tree) -> bool
        decreases self.nodes.len(), 2int,
    {
        &&& self.shaped()
        &&& self.root_span() == span_of(t)
        &&& match self.root() {
            Node::TypeIdent(name) => t.kind() == Token::Literal && is_name(
                Some(name.0),
                t.token_text(Token::IDENT),
            ),
            Node::Struct(s) => t.kind() != Token::Literal && self.are_fields(
                s.0@,
                fields_that_lower(t.nodes(NodeClass::Exactly(Token::FieldType))),
            ),
            _ => false,
        }
    }

    /// `field` is the lowering of the field `f`, which can be lowered: it
    /// has the name of `f`, and its type stands before the last node.
    pub open spec fn is_field(self, field: TypedIdent, f: Tree) -> bool
        decreases self.nodes.len(), 0int,
    {
        &&& is_name(Some(field.ident), f.token_text(Token::IDENT))
        &&& self.before_root(field.ty)
        &&& self.upto(field.ty).is_type(f.nth(NodeClass::Type, 0).unwrap())
    }

    /// `fields` are the lowerings of the fields `fs`, one for one.
    pub open spec fn are_fields(self, fields: Seq<TypedIdent>, fs: Seq<Tree>) -> bool
        decreases self.nodes.len(), 1int,
    {
        &&& fields.len() == fs.len()
        &&& forall|k: int| 0 <= k < fields.len() ==> self.is_field(#[trigger] fields[k], fs[k])
    }

    /// The last node is the lowering of the item `t`, which can be lowered.
    pub open spec fn is_item(self, t: Tree) -> bool {
        &&& self.shaped()
        &&& match self.root() {
            Node::System(s) => {
                &&& t.kind() == Token::System
                &&& is_name(s.ident, t.token_text(Token::IDENT))
                &&& self.before_root(s.block)
                &&& self.upto(s.block).is_expr(t.nth(NodeClass::Exactly(Token::Block), 0))
                &&& self.root_span() == span_of(t)
            },
            Node::Resource(f) => {
                &&& t.kind() == Token::Resource
                &&& self.is_field(f, t.nth(NodeClass::Exactly(Token::FieldType), 0).unwrap())
                &&& self.root_span() == span_of(t)
            },
            Node::Component(f) => {
                &&& t.kind() == Token::Component
                &&& self.is_field(f, t.nth(NodeClass::Exactly(Token::FieldType), 0).unwrap())
                &&& self.root_span() == span_of(t)
            },
            Node::Import(name) => {
                &&& t.kind() == Token::Import
                &&& is_name(Some(name), t.token_text(Token::IDENT))
                &&& self.root_span() == span_of(t)
            },
            _ => false,
        }
    }

    /// The node at `i` is the lowering of the type `t`.
    pub open spec fn type_at(self, i: NodeIdx, t: Tree) -> bool {
        i < self.len() && self.upto(i).is_type(t)
    }

    /// `field` is the lowering of the field `f`, its type being among the
    /// nodes.
    pub open spec fn field_made(self, field: TypedIdent, f: Tree) -> bool {
        &&& is_name(Some(field.ident), f.token_text(Token::IDENT))
        &&& self.type_at(field.ty, f.nth(NodeClass::Type, 0).unwrap())
    }

    /// The node at `i` is the lowering of the item `t`.
    pub open spec fn item_at(self, i: NodeIdx, t: Tree) -> bool {
        i < self.len() && self.upto(i).is_item(t)
    }

    /// The node at `i` stands for the item `t`: it is the lowering of `t`,
    /// or, where `t` cannot be lowered, the mark of a missing part.
    pub open spec fn stands_for(self, i: NodeIdx, t: Tree) -> bool {
        if item_lowers(t) {
            self.item_at(i, t)
        } else {
            i < self.len() && self.upto(i).is_missing()
        }
    }

    /// The nodes at `ids` stand for the items `ts`, one for one: every item
    /// has its node.
    pub open spec fn items_at(self, ids: Seq<NodeIdx>, ts: Seq<Tree>) -> bool {
        &&& ids.len() == ts.len()
        &&& forall|k: int| 0 <= k < ids.len() ==> self.stands_for(#[trigger] ids[k], ts[k])
    }

    /// The number of poison expressions among the nodes: each stands for a
    /// part that was found missing.
    pub open spec fn missing_count(self) -> nat
        decreases self.nodes.len(),
    {
        if self.nodes.len() == 0 || self.spans.len() != self.nodes.len() {
            0
        } else if self.root() matches Node::Expr(Expr::Poison) {
            self.take(self.len() - 1).missing_count() + 1
        } else {
            self.take(self.len() - 1).missing_count()
        }
    }
}


/// The number of nodes that an infix operator makes beside its operands:
/// the assignment, the call and the identifier of the operator for a
/// compound assignment, the call and the identifier for an operator that
/// is called, and one node for any other.
pub open spec fn operator_count(k: Token) -> nat {
    if assign_operator(k).is_some() {
        3
    } else if binary_operator(k).is_some() {
        2
    } else {
        1
    }
}

/// The expressions of the fields of a struct literal.
pub open spec fn pair_exprs(pairs: Seq<(Tree, Tree)>) -> Seq<Tree> {
    Seq::new(pairs.len(), |i: int| pairs[i].1)
}

/// The number of nodes that the lowering of the expression `e` makes. A
/// missing expression makes one, the poison; an operator makes its own
/// identifier beside the call, and a compound assignment the assignment
/// beside those; parentheses make none.
#[verifier::opaque]
pub open spec fn expr_count(e: Option<Tree>) -> nat
    decreases
            (match e {
                Some(t) => t.size(),
                None => 0,
            }),
            2int,
            0nat,
{
    match e {
        None => 1,
        Some(t) => {
            let k = t.kind();
            let c0 = child_count(t, t.nth(NodeClass::Expr, 0));
            let c1 = child_count(t, t.nth(NodeClass::Expr, 1));
            if k == Token::Prefix {
                match t.token(TokenClass::PrefixOp) {
                    Some(op) => if unary_operator(op.kind()).is_some() {
                        2 + c0
                    } else {
                        1
                    },
                    None => 1,
                }
            } else if k == Token::Infix {
                c0 + c1 + match t.token(TokenClass::InfixOp) {
                    Some(op) => operator_count(op.kind()),
                    None => 1nat,
                }
            } else if k == Token::Literal {
                1
            } else if k == Token::Query {
                if t.token_text(Token::IDENT).is_some() {
                    1 + child_count(t, t.nth(NodeClass::Exactly(Token::Block), 0))
                } else {
                    1
                }
            } else if k == Token::Block {
                1 + children_count(t, t.nodes(NodeClass::Expr))
            } else if k == Token::ComponentAccess || k == Token::Let || k == Token::While {
                1 + c0 + c1
            } else if k == Token::ResourceAccess || k == Token::Del {
                1 + c0
            } else if k == Token::Paren {
                c0
            } else if k == Token::If {
                1 + c0 + c1 + if t.token(TokenClass::Exactly(Token::ELSE)).is_some() {
                    child_count(t, t.nth(NodeClass::Expr, 2))
                } else {
                    0
                }
            } else if k == Token::Call {
                1 + c0 + children_count(t, all_but_first(t.nodes(NodeClass::Expr)))
            } else if k == Token::Struct {
                if t.nth(NodeClass::Exactly(Token::Literal), 0).is_some() && t.nth(
                    NodeClass::Exactly(Token::Literal),
                    0,
                ).unwrap().token_text(Token::IDENT).is_some() {
                    1 + children_count(t, pair_exprs(Tree::field_pairs(t.children(), 0)))
                } else {
                    1
                }
            } else {
                1
            }
        },
    }
}

/// The number of nodes that the lowering of `c` makes, which is a part of
/// `parent` or missing from it.
pub open spec fn child_count(parent: Tree, c: Option<Tree>) -> nat
    decreases parent.size(), 0int, 0nat,
{
    match c {
        Some(x) => if x.size() < parent.size() {
            expr_count(Some(x))
        } else {
            0
        },
        None => 1,
    }
}

/// The number of nodes that the lowering of the expressions `ts` makes,
/// which are parts of `parent`.
pub open spec fn children_count(parent: Tree, ts: Seq<Tree>) -> nat
    decreases parent.size(), 1int, ts.len(),
{
    if ts.len() == 0 {
        0
    } else {
        children_count(parent, ts.drop_last()) + child_count(parent, Some(ts.last()))
    }
}

/// The number of nodes that the lowering of the type `t` makes: none for
/// a type given by name that lacks the name.
pub open spec fn type_count(t: Tree) -> nat
    decreases t.size(), 2int, 0nat,
{
    if t.kind() == Token::Literal {
        if t.token_text(Token::IDENT).is_some() {
            1
        } else {
            0
        }
    } else {
        1 + fields_count(t, t.nodes(NodeClass::Exactly(Token::FieldType)))
    }
}

/// The number of nodes that the lowering of the field `f` makes: those of
/// its type, if it has a name and a type.
pub open spec fn field_count(f: Tree) -> nat
    decreases f.size(), 3int, 0nat,
{
    if f.token_text(Token::IDENT).is_some() {
        match f.nth(NodeClass::Type, 0) {
            Some(ty) => if ty.size() < f.size() {
                type_count(ty)
            } else {
                0
            },
            None => 0,
        }
    } else {
        0
    }
}

/// The number of nodes that the lowering of the fields `fs` of the struct
/// type `parent` makes.
pub open spec fn fields_count(parent: Tree, fs: Seq<Tree>) -> nat
    decreases parent.size(), 1int, fs.len(),
{
    if fs.len() == 0 {
        0
    } else {
        fields_count(parent, fs.drop_last()) + if fs.last().size() < parent.size() {
            field_count(fs.last())
        } else {
            0
        }
    }
}

/// The number of nodes that the lowering of the item `t` makes as long as
/// nothing is found missing: none for an item that cannot be lowered, but
/// for the type of a field that can.
pub open spec fn item_made(t: Tree) -> nat {
    if t.kind() == Token::System {
        match t.nth(NodeClass::Exactly(Token::Block), 0) {
            Some(b) => expr_count(Some(b)) + 1,
            None => 0,
        }
    } else if t.kind() == Token::Import {
        if t.token_text(Token::IDENT).is_some() {
            1
        } else {
            0
        }
    } else {
        match t.nth(NodeClass::Exactly(Token::FieldType), 0) {
            Some(f) => field_count(f) + if field_lowers(f) {
                1nat
            } else {
                0nat
            },
            None => 0,
        }
    }
}

/// The number of nodes that the item `t` makes: those of its lowering,
/// and for an item that cannot be lowered the mark of the missing part.
pub open spec fn item_count(t: Tree) -> nat {
    item_made(t) + if item_lowers(t) {
        0nat
    } else {
        1nat
    }
}

/// The number of nodes that the lowering of the items `ts` makes.
pub open spec fn items_count(ts: Seq<Tree>) -> nat
    decreases ts.len(),
{
    if ts.len() == 0 {
        0
    } else {
        items_count(ts.drop_last()) + item_count(ts.last())
    }
}


/// The count of a missing expression.
pub proof fn lemma_count_missing()
    ensures
        expr_count(None) == 1,
{
    reveal(expr_count);
}

/// The count of an expression made with a prefix operator.
pub proof fn lemma_count_unary(t: Tree)
    requires
        t.kind() == Token::Prefix,
    ensures
        expr_count(Some(t)) == match t.token(TokenClass::PrefixOp) {
            Some(op) => if unary_operator(op.kind()).is_some() {
                2 + child_count(t, t.nth(NodeClass::Expr, 0))
            } else {
                1
            },
            None => 1,
        },
{
    reveal(expr_count);
}

/// The count of an expression made with an infix operator.
pub proof fn lemma_count_binary(t: Tree)
    requires
        t.kind() == Token::Infix,
    ensures
        expr_count(Some(t)) == child_count(t, t.nth(NodeClass::Expr, 0)) + child_count(
            t,
            t.nth(NodeClass::Expr, 1),
        ) + match t.token(TokenClass::InfixOp) {
            Some(op) => operator_count(op.kind()),
            None => 1nat,
        },
{
    reveal(expr_count);
}

/// The count of an expression between parentheses.
pub proof fn lemma_count_paren(t: Tree)
    requires
        t.kind() == Token::Paren,
    ensures
        expr_count(Some(t)) == child_count(t, t.nth(NodeClass::Expr, 0)),
{
    reveal(expr_count);
}

/// The count of a literal.
pub proof fn lemma_count_literal(t: Tree)
    requires
        t.kind() == Token::Literal,
    ensures
        expr_count(Some(t)) == 1,
{
    reveal(expr_count);
}

/// The count of a query.
pub proof fn lemma_count_query(t: Tree)
    requires
        t.kind() == Token::Query,
    ensures
        expr_count(Some(t)) == if t.token_text(Token::IDENT).is_some() {
            1 + child_count(t, t.nth(NodeClass::Exactly(Token::Block), 0))
        } else {
            1
        },
{
    reveal(expr_count);
}

/// The count of a block.
pub proof fn lemma_count_block(t: Tree)
    requires
        t.kind() == Token::Block,
    ensures
        expr_count(Some(t)) == 1 + children_count(t, t.nodes(NodeClass::Expr)),
{
    reveal(expr_count);
}

/// The count of an expression of two parts: an access to a component, a
/// `let` and a `while`.
pub proof fn lemma_count_two(t: Tree)
    requires
        t.kind() == Token::ComponentAccess || t.kind() == Token::Let || t.kind() == Token::While,
    ensures
        expr_count(Some(t)) == 1 + child_count(t, t.nth(NodeClass::Expr, 0)) + child_count(
            t,
            t.nth(NodeClass::Expr, 1),
        ),
{
    reveal(expr_count);
}

/// The count of an expression of one part: an access to a resource and a
/// `del`.
pub proof fn lemma_count_one(t: Tree)
    requires
        t.kind() == Token::ResourceAccess || t.kind() == Token::Del,
    ensures
        expr_count(Some(t)) == 1 + child_count(t, t.nth(NodeClass::Expr, 0)),
{
    reveal(expr_count);
}

/// The count of an `if`.
pub proof fn lemma_count_if(t: Tree)
    requires
        t.kind() == Token::If,
    ensures
        expr_count(Some(t)) == 1 + child_count(t, t.nth(NodeClass::Expr, 0)) + child_count(
            t,
            t.nth(NodeClass::Expr, 1),
        ) + if t.token(TokenClass::Exactly(Token::ELSE)).is_some() {
            child_count(t, t.nth(NodeClass::Expr, 2))
        } else {
            0
        },
{
    reveal(expr_count);
}

/// The count of a call.
pub proof fn lemma_count_call(t: Tree)
    requires
        t.kind() == Token::Call,
    ensures
        expr_count(Some(t)) == 1 + child_count(t, t.nth(NodeClass::Expr, 0)) + children_count(
            t,
            all_but_first(t.nodes(NodeClass::Expr)),
        ),
{
    reveal(expr_count);
}

/// The count of a struct literal.
pub proof fn lemma_count_struct(t: Tree)
    requires
        t.kind() == Token::Struct,
    ensures
        expr_count(Some(t)) == if t.nth(NodeClass::Exactly(Token::Literal), 0).is_some() && t.nth(
            NodeClass::Exactly(Token::Literal),
            0,
        ).unwrap().token_text(Token::IDENT).is_some() {
            1 + children_count(t, pair_exprs(Tree::field_pairs(t.children(), 0)))
        } else {
            1
        },
{
    reveal(expr_count);
}


impl Ir {
    /// The last node assigns to a target the call of the operator `op`
    /// with two arguments: the target is the lowering of `target`, the
    /// arguments are the lowerings of `first` and `second`.
    pub open spec fn assigns_operation(
        self,
        op: Operator,
        target: Option<Tree>,
        first: Option<Tree>,
        second: Option<Tree>,
    ) -> bool {
        match self.root() {
            Node::Expr(Expr::Assign { lvalue, expr }) => {
                &&& self.before_root(lvalue)
                &&& self.before_root(expr)
                &&& self.upto(lvalue).is_expr(target)
                &&& match self.nodes[expr as int] {
                    Node::Expr(Expr::FunctionCall { function, args }) => {
                        &&& args@.len() == 2
                        &&& function < expr
                        &&& self.nodes[function as int] matches Node::Expr(
                            Expr::Identifier(Identifier::Operator(o)),
                        ) && o == op
                        &&& self.upto(expr).is_pair(args@[0], first, args@[1], second)
                    },
                    _ => false,
                }
            },
            _ => false,
        }
    }

    /// The last node assigns to a target a call of which the first
    /// argument is the node of the target itself.
    pub open spec fn first_argument_is_target(self) -> bool {
        match self.root() {
            Node::Expr(Expr::Assign { lvalue, expr }) => {
                &&& self.before_root(expr)
                &&& match self.nodes[expr as int] {
                    Node::Expr(Expr::FunctionCall { args, .. }) => args@.len() == 2 && args@[0]
                        == lvalue,
                    _ => false,
                }
            },
            _ => false,
        }
    }

    /// The last node calls the operator `op` with the lowerings of `left`
    /// and `right`.
    pub open spec fn calls_operator(self, op: Operator, left: Option<Tree>, right: Option<Tree>) -> bool {
        match self.root() {
            Node::Expr(Expr::FunctionCall { function, args }) => {
                &&& args@.len() == 2
                &&& self.before_root(function)
                &&& self.nodes[function as int] matches Node::Expr(
                    Expr::Identifier(Identifier::Operator(o)),
                ) && o == op
                &&& self.is_pair(args@[0], left, args@[1], right)
            },
            _ => false,
        }
    }
}

/// An infix operator that is called is lowered to the call of the operator
/// with its two operands.
pub proof fn lemma_operator_is_call(ir: Ir, t: Tree)
    requires
        ir.is_expr(Some(t)),
        t.kind() == Token::Infix,
        t.token(TokenClass::InfixOp).is_some(),
        binary_operator(t.token(TokenClass::InfixOp).unwrap().kind()).is_some(),
    ensures
        ir.calls_operator(
            binary_operator(t.token(TokenClass::InfixOp).unwrap().kind()).unwrap(),
            t.nth(NodeClass::Expr, 0),
            t.nth(NodeClass::Expr, 1),
        ),
{
    let op = t.token(TokenClass::InfixOp).unwrap();
    assert(ir.is_binary(t));
    match ir.root() {
        Node::Expr(Expr::FunctionCall { function, args }) => {
            assert(ir.upto(function).is_operator(binary_operator(op.kind()).unwrap(), op));
            assert(ir.upto(function).root() == ir.nodes[function as int]);
        },
        _ => {},
    }
}

/// `a.b` is lowered to a member access, and `a = b` to an assignment, of
/// the lowerings of the two operands.
pub proof fn lemma_dot_and_assignment(ir: Ir, t: Tree)
    requires
        ir.is_expr(Some(t)),
        t.kind() == Token::Infix,
        t.token(TokenClass::InfixOp).is_some(),
    ensures
        t.token(TokenClass::InfixOp).unwrap().kind() == Token::DOT ==> match ir.root() {
            Node::Expr(Expr::MemberAccess { base, member }) => ir.is_pair(
                base,
                t.nth(NodeClass::Expr, 0),
                member,
                t.nth(NodeClass::Expr, 1),
            ),
            _ => false,
        },
        t.token(TokenClass::InfixOp).unwrap().kind() == Token::EQ ==> match ir.root() {
            Node::Expr(Expr::Assign { lvalue, expr }) => ir.is_pair(
                lvalue,
                t.nth(NodeClass::Expr, 0),
                expr,
                t.nth(NodeClass::Expr, 1),
            ),
            _ => false,
        },
{
    assert(ir.is_binary(t));
}

/// A compound assignment `a op= b` is lowered to the assignment to `a` of
/// the call of `op` with `a` and `b`, and `a` is lowered once: the target
/// of the assignment is the first argument of the call.
pub proof fn lemma_compound_assignment(ir: Ir, t: Tree)
    requires
        ir.is_expr(Some(t)),
        t.kind() == Token::Infix,
        t.token(TokenClass::InfixOp).is_some(),
        assign_operator(t.token(TokenClass::InfixOp).unwrap().kind()).is_some(),
    ensures
        ir.assigns_operation(
            assign_operator(t.token(TokenClass::InfixOp).unwrap().kind()).unwrap(),
            t.nth(NodeClass::Expr, 0),
            t.nth(NodeClass::Expr, 0),
            t.nth(NodeClass::Expr, 1),
        ),
        ir.first_argument_is_target(),
{
    let op = t.token(TokenClass::InfixOp).unwrap();
    let o = assign_operator(op.kind()).unwrap();
    assert(ir.is_binary(t));
    match ir.root() {
        Node::Expr(Expr::Assign { lvalue, expr }) => {
            let inner = ir.upto(expr);
            match ir.nodes[expr as int] {
                Node::Expr(Expr::FunctionCall { function, args }) => {
                    assert(inner.root() == ir.nodes[expr as int]);
                    assert(inner.is_call_of(o, op, args@, t));
                    assert(inner.upto(function).is_operator(o, op));
                    assert(inner.upto(function).root() == ir.nodes[function as int]);
                    assert(inner.upto(lvalue).nodes =~= ir.upto(lvalue).nodes);
                    assert(inner.upto(lvalue).spans =~= ir.upto(lvalue).spans);
                },
                _ => {},
            }
        },
        _ => {},
    }
}

/// The plain form `a = a op b` is lowered to the same: the assignment to
/// `a` of the call of `op` with `a` and `b`. So a compound assignment and
/// its plain form are lowered to nodes of one shape, with the same
/// operator and with operands that are lowerings of the same expressions.
pub proof fn lemma_plain_assignment(ir: Ir, t: Tree, value: Tree)
    requires
        ir.is_expr(Some(t)),
        t.kind() == Token::Infix,
        t.token(TokenClass::InfixOp).is_some(),
        t.token(TokenClass::InfixOp).unwrap().kind() == Token::EQ,
        t.nth(NodeClass::Expr, 1) == Some(value),
        value.kind() == Token::Infix,
        value.token(TokenClass::InfixOp).is_some(),
        binary_operator(value.token(TokenClass::InfixOp).unwrap().kind()).is_some(),
    ensures
        ir.assigns_operation(
            binary_operator(value.token(TokenClass::InfixOp).unwrap().kind()).unwrap(),
            t.nth(NodeClass::Expr, 0),
            value.nth(NodeClass::Expr, 0),
            value.nth(NodeClass::Expr, 1),
        ),
{
    assert(ir.is_binary(t));
    match ir.root() {
        Node::Expr(Expr::Assign { lvalue, expr }) => {
            let inner = ir.upto(expr);
            assert(inner.is_expr(Some(value)));
            lemma_operator_is_call(inner, value);
            assert(inner.root() == ir.nodes[expr as int]);
            match inner.root() {
                Node::Expr(Expr::FunctionCall { function, args }) => {
                    assert(inner.nodes[function as int] == ir.nodes[function as int]);
                },
                _ => {},
            }
        },
        _ => {},
    }
}

} // verus!

//! Typed views over the syntax tree. A view owns nothing: it is a reference
//! to a node of the kind that its type stands for, and its accessors look
//! among the children of that node.

use crate::syntax::{element_view, elements_view, lemma_node_view, SyntaxElement, SyntaxNode, SyntaxToken, Tree};
use crate::token::Token;
use vstd::prelude::*;
use vstd::utf8::encode_utf8;

verus! {

/// A set of node kinds that an accessor looks for.
#[derive(Debug, Clone, Copy, PartialEq, Eq, Structural)]
pub enum NodeClass {
    /// The kinds of top-level items.
    Item,
    /// The kinds of types.
    Type,
    /// The kinds of expressions.
    Expr,
    /// One kind.
    Exactly(Token),
}

/// A set of token kinds that an accessor looks for.
#[derive(Debug, Clone, Copy, PartialEq, Eq, Structural)]
pub enum TokenClass {
    /// The prefix operators.
    PrefixOp,
    /// The infix operators.
    InfixOp,
    /// One kind.
    Exactly(Token),
}

impl NodeClass {
    pub open spec fn has(self, kind: Token) -> bool {
        match self {
            NodeClass::Item => kind == Token::System || kind == Token::Resource || kind
                == Token::Component || kind == Token::Import,
            NodeClass::Type => kind == Token::Literal || kind == Token::StructType,
            NodeClass::Expr => kind == Token::Prefix || kind == Token::Infix || kind
                == Token::Literal || kind == Token::Query || kind == Token::Block || kind
                == Token::ComponentAccess || kind == Token::ResourceAccess || kind == Token::Let
                || kind == Token::Del || kind == Token::If || kind == Token::While || kind
                == Token::Call || kind == Token::Struct || kind == Token::Paren,
            NodeClass::Exactly(k) => kind == k,
        }
    }

    #[verifier::when_used_as_spec(has)]
    pub fn contains(self, kind: Token) -> (r: bool)
        ensures
            r == self.has(kind),
    {
        match self {
            NodeClass::Item => kind == Token::System || kind == Token::Resource || kind
                == Token::Component || kind == Token::Import,
            NodeClass::Type => kind == Token::Literal || kind == Token::StructType,
            NodeClass::Expr => kind == Token::Prefix || kind == Token::Infix || kind
                == Token::Literal || kind == Token::Query || kind == Token::Block || kind
                == Token::ComponentAccess || kind == Token::ResourceAccess || kind == Token::Let
                || kind == Token::Del || kind == Token::If || kind == Token::While || kind
                == Token::Call || kind == Token::Struct || kind == Token::Paren,
            NodeClass::Exactly(k) => kind == k,
        }
    }
}

impl TokenClass {
    pub open spec fn has(self, kind: Token) -> bool {
        match self {
            TokenClass::PrefixOp => kind.prefix_binding_power().is_some(),
            TokenClass::InfixOp => kind.infix_binding_power().is_some(),
            TokenClass::Exactly(k) => kind == k,
        }
    }

    #[verifier::when_used_as_spec(has)]
    pub fn contains(self, kind: Token) -> (r: bool)
        ensures
            r == self.has(kind),
    {
        match self {
            TokenClass::PrefixOp => kind.is_prefix_op(),
            TokenClass::InfixOp => kind.is_infix_op(),
            TokenClass::Exactly(k) => kind == k,
        }
    }
}

impl Tree {
    /// The children of a node; a leaf has none.
    pub open spec fn children(self) -> Seq<Tree> {
        match self {
            Tree::Node { children, .. } => children,
            Tree::Leaf { .. } => Seq::empty(),
        }
    }

    /// The text of a leaf; a node has none of its own.
    pub open spec fn leaf_text(self) -> Seq<u8> {
        match self {
            Tree::Node { .. } => Seq::empty(),
            Tree::Leaf { text, .. } => text,
        }
    }

    /// Those of `ts` that are nodes of a kind in `class`, in order.
    pub open spec fn select(ts: Seq<Tree>, class: NodeClass) -> Seq<Tree>
        decreases ts.len(),
    {
        if ts.len() == 0 {
            Seq::empty()
        } else if ts.last() is Node && class.has(ts.last().kind()) {
            Self::select(ts.drop_last(), class).push(ts.last())
        } else {
            Self::select(ts.drop_last(), class)
        }
    }

    /// Index of the first of `ts`, at or after `from`, that is a token of a
    /// kind in `class`; the length of `ts` if there is none.
    pub open spec fn next_token(ts: Seq<Tree>, from: int, class: TokenClass) -> int
        decreases ts.len() - from,
    {
        if from < 0 || from >= ts.len() {
            ts.len() as int
        } else if ts[from] is Leaf && class.has(ts[from].kind()) {
            from
        } else {
            Self::next_token(ts, from + 1, class)
        }
    }

    /// Index of the first of `ts`, at or after `from`, that is a node of a
    /// kind in `class`; the length of `ts` if there is none.
    pub open spec fn next_node(ts: Seq<Tree>, from: int, class: NodeClass) -> int
        decreases ts.len() - from,
    {
        if from < 0 || from >= ts.len() {
            ts.len() as int
        } else if ts[from] is Node && class.has(ts[from].kind()) {
            from
        } else {
            Self::next_node(ts, from + 1, class)
        }
    }

    /// The child nodes of a kind in `class`, in order.
    pub open spec fn nodes(self, class: NodeClass) -> Seq<Tree> {
        Self::select(self.children(), class)
    }

    /// The `n`-th child node of a kind in `class`, if there are so many.
    pub open spec fn nth(self, class: NodeClass, n: int) -> Option<Tree> {
        if 0 <= n < self.nodes(class).len() {
            Some(self.nodes(class)[n])
        } else {
            None
        }
    }

    /// The first child token of a kind in `class`, if there is one.
    pub open spec fn token(self, class: TokenClass) -> Option<Tree> {
        let i = Self::next_token(self.children(), 0, class);
        if i < self.children().len() {
            Some(self.children()[i])
        } else {
            None
        }
    }

    /// The text of the first child token of kind `kind`, if there is one.
    pub open spec fn token_text(self, kind: Token) -> Option<Seq<u8>> {
        match self.token(TokenClass::Exactly(kind)) {
            Some(t) => Some(t.leaf_text()),
            None => None,
        }
    }

    /// The fields of a struct literal: each name token with the first
    /// expression that follows it, from index `from` of `ts` on.
    pub open spec fn field_pairs(ts: Seq<Tree>, from: int) -> Seq<(Tree, Tree)>
        decreases ts.len() - from,
    {
        let i = Self::next_token(ts, from, TokenClass::Exactly(Token::IDENT));
        let j = Self::next_node(ts, i + 1, NodeClass::Expr);
        if 0 <= from <= i && i < j && j < ts.len() {
            seq![(ts[i], ts[j])] + Self::field_pairs(ts, j + 1)
        } else {
            Seq::empty()
        }
    }
}

/// The models of a sequence of references to nodes.
pub open spec fn nodes_view(ns: Seq<&SyntaxNode>) -> Seq<Tree> {
    Seq::new(ns.len(), |i: int| ns[i]@)
}

/// Whether `name` is the text `text`.
pub open spec fn is_text(name: String, text: Seq<u8>) -> bool {
    encode_utf8(name@) == text
}

/// Whether `name` is the text of the first child token of kind `kind` of
/// `tree`: `Some` with that text where there is one, `None` where not.
pub open spec fn is_token_text(name: Option<String>, tree: Tree, kind: Token) -> bool {
    match name {
        Some(s) => tree.token_text(kind).is_some() && is_text(s, tree.token_text(kind).unwrap()),
        None => tree.token_text(kind).is_none(),
    }
}

impl SyntaxNode {
    /// The children, as the model has them.
    pub proof fn lemma_children(&self)
        ensures
            self@.children() == elements_view(self.children@),
    {
        lemma_node_view(*self);
    }

    /// The child nodes of a kind in `class`, in order.
    pub fn child_nodes(&self, class: NodeClass) -> (r: Vec<&SyntaxNode>)
        ensures
            nodes_view(r@) == self@.nodes(class),
    {
        proof {
            self.lemma_children();
        }
        let ghost ts = self@.children();
        let mut out: Vec<&SyntaxNode> = Vec::new();
        let mut i: usize = 0;
        assert(ts.subrange(0, 0) =~= Seq::<Tree>::empty());
        assert(nodes_view(out@) =~= Seq::<Tree>::empty());
        while i < self.children.len()
            invariant
                i <= self.children@.len(),
                ts == elements_view(self.children@),
                nodes_view(out@) == Tree::select(ts.subrange(0, i as int), class),
            decreases self.children@.len() - i,
        {
            proof {
                assert(ts.subrange(0, i + 1).drop_last() =~= ts.subrange(0, i as int));
                assert(ts.subrange(0, i + 1).last() == element_view(self.children@[i as int]));
            }
            match &self.children[i] {
                SyntaxElement::Node(n) => {
                    if class.contains(n.kind) {
                        proof {
                            assert(nodes_view(out@.push(n)) =~= nodes_view(out@).push(n@));
                        }
                        out.push(n);
                    }
                },
                SyntaxElement::Token(_) => {},
            }
            i = i + 1;
        }
        assert(ts.subrange(0, ts.len() as int) =~= ts);
        out
    }

    /// The `n`-th child node of a kind in `class`, if there are so many.
    pub fn nth_node(&self, class: NodeClass, n: usize) -> (r: Option<&SyntaxNode>)
        ensures
            match r {
                Some(x) => self@.nth(class, n as int) == Some(x@),
                None => self@.nth(class, n as int).is_none(),
            },
    {
        let all = self.child_nodes(class);
        if n < all.len() {
            assert(nodes_view(all@)[n as int] == all@[n as int]@);
            Some(all[n])
        } else {
            None
        }
    }

    /// Index of the first child, at or after `from`, that is a token of a
    /// kind in `class`; the number of children if there is none.
    pub fn next_token(&self, from: usize, class: TokenClass) -> (r: usize)
        ensures
            r == Tree::next_token(self@.children(), from as int, class),
            from <= r || r == self.children@.len(),
            r <= self.children@.len(),
            r < self.children@.len() ==> (self.children@[r as int] is Token),
            r < self.children@.len() ==> self@.children()[r as int] is Leaf && class.has(
                self@.children()[r as int].kind(),
            ),
    {
        proof {
            self.lemma_children();
        }
        let ghost ts = self@.children();
        let mut i: usize = from;
        while i < self.children.len()
            invariant
                from <= i,
                ts == self@.children(),
                ts == elements_view(self.children@),
                Tree::next_token(ts, i as int, class) == Tree::next_token(ts, from as int, class),
            decreases self.children@.len() - i,
        {
            assert(ts[i as int] == element_view(self.children@[i as int]));
            match &self.children[i] {
                SyntaxElement::Token(t) => {
                    if class.contains(t.kind) {
                        return i;
                    }
                },
                SyntaxElement::Node(n) => {
                    proof {
                        lemma_node_view(*n);
                    }
                },
            }
            i = i + 1;
        }
        self.children.len()
    }

    /// Index of the first child, at or after `from`, that is a node of a
    /// kind in `class`; the number of children if there is none.
    pub fn next_node(&self, from: usize, class: NodeClass) -> (r: usize)
        ensures
            r == Tree::next_node(self@.children(), from as int, class),
            from <= r || r == self.children@.len(),
            r <= self.children@.len(),
            r < self.children@.len() ==> (self.children@[r as int] is Node),
            r < self.children@.len() ==> self@.children()[r as int] is Node && class.has(
                self@.children()[r as int].kind(),
            ),
    {
        proof {
            self.lemma_children();
        }
        let ghost ts = self@.children();
        let mut i: usize = from;
        while i < self.children.len()
            invariant
                from <= i,
                ts == self@.children(),
                ts == elements_view(self.children@),
                Tree::next_node(ts, i as int, class) == Tree::next_node(ts, from as int, class),
            decreases self.children@.len() - i,
        {
            assert(ts[i as int] == element_view(self.children@[i as int]));
            match &self.children[i] {
                SyntaxElement::Node(n) => {
                    proof {
                        lemma_node_view(*n);
                    }
                    if class.contains(n.kind) {
                        return i;
                    }
                },
                SyntaxElement::Token(_) => {},
            }
            i = i + 1;
        }
        self.children.len()
    }

    /// The first child token of a kind in `class`, if there is one.
    pub fn token(&self, class: TokenClass) -> (r: Option<&SyntaxToken>)
        ensures
            match r {
                Some(t) => self@.token(class) == Some(t@),
                None => self@.token(class).is_none(),
            },
    {
        proof {
            self.lemma_children();
        }
        let i = self.next_token(0, class);
        if i < self.children.len() {
            match &self.children[i] {
                SyntaxElement::Token(t) => Some(t),
                SyntaxElement::Node(_) => None,
            }
        } else {
            None
        }
    }

    /// The text of the first child token of kind `kind`, if there is one.
    pub fn token_text(&self, kind: Token) -> (r: Option<String>)
        ensures
            is_token_text(r, self@, kind),
    {
        match self.token(TokenClass::Exactly(kind)) {
            Some(t) => Some(t.text.clone()),
            None => None,
        }
    }
}

/// The root of a source file.
#[derive(Debug, Clone, Copy)]
pub struct Root<'a> {
    syntax: &'a SyntaxNode,
}

impl<'a> View for Root<'a> {
    type V = Tree;

    closed spec fn view(&self) -> Tree {
        self.syntax@
    }
}

impl<'a> Root<'a> {
    /// The node is of the kind that the view is for.
    #[verifier::type_invariant]
    pub open spec fn well_formed(&self) -> bool {
        self@.kind() == Token::Root
    }

    /// Whether a node of kind `kind` is one of these.
    pub fn can_cast(kind: Token) -> (r: bool)
        ensures
            r == (kind == Token::Root),
    {
        kind == Token::Root
    }

    /// The view of `node`, if it is of the right kind.
    pub fn cast(node: &'a SyntaxNode) -> (r: Option<Self>)
        ensures
            r.is_some() == (node@.kind() == Token::Root),
            r.is_some() ==> r.unwrap()@ == node@,
    {
        proof {
            lemma_node_view(*node);
        }
        if Self::can_cast(node.kind) {
            Some(Root { syntax: node })
        } else {
            None
        }
    }

    /// The node that this is a view of.
    pub fn syntax(&self) -> (r: &'a SyntaxNode)
        ensures
            r@ == self@,
    {
        self.syntax
    }
}

/// `sys [name] { ... }`
#[derive(Debug, Clone, Copy)]
pub struct System<'a> {
    syntax: &'a SyntaxNode,
}

impl<'a> View for System<'a> {
    type V = Tree;

    closed spec fn view(&self) -> Tree {
        self.syntax@
    }
}

impl<'a> System<'a> {
    /// The node is of the kind that the view is for.
    #[verifier::type_invariant]
    pub open spec fn well_formed(&self) -> bool {
        self@.kind() == Token::System
    }

    /// Whether a node of kind `kind` is one of these.
    pub fn can_cast(kind: Token) -> (r: bool)
        ensures
            r == (kind == Token::System),
    {
        kind == Token::System
    }

    /// The view of `node`, if it is of the right kind.
    pub fn cast(node: &'a SyntaxNode) -> (r: Option<Self>)
        ensures
            r.is_some() == (node@.kind() == Token::System),
            r.is_some() ==> r.unwrap()@ == node@,
    {
        proof {
            lemma_node_view(*node);
        }
        if Self::can_cast(node.kind) {
            Some(System { syntax: node })
        } else {
            None
        }
    }

    /// The node that this is a view of.
    pub fn syntax(&self) -> (r: &'a SyntaxNode)
        ensures
            r@ == self@,
    {
        self.syntax
    }
}

/// `comp name: type`
#[derive(Debug, Clone, Copy)]
pub struct Component<'a> {
    syntax: &'a SyntaxNode,
}

impl<'a> View for Component<'a> {
    type V = Tree;

    closed spec fn view(&self) -> Tree {
        self.syntax@
    }
}

impl<'a> Component<'a> {
    /// The node is of the kind that the view is for.
    #[verifier::type_invariant]
    pub open spec fn well_formed(&self) -> bool {
        self@.kind() == Token::Component
    }

    /// Whether a node of kind `kind` is one of these.
    pub fn can_cast(kind: Token) -> (r: bool)
        ensures
            r == (kind == Token::Component),
    {
        kind == Token::Component
    }

    /// The view of `node`, if it is of the right kind.
    pub fn cast(node: &'a SyntaxNode) -> (r: Option<Self>)
        ensures
            r.is_some() == (node@.kind() == Token::Component),
            r.is_some() ==> r.unwrap()@ == node@,
    {
        proof {
            lemma_node_view(*node);
        }
        if Self::can_cast(node.kind) {
            Some(Component { syntax: node })
        } else {
            None
        }
    }

    /// The node that this is a view of.
    pub fn syntax(&self) -> (r: &'a SyntaxNode)
        ensures
            r@ == self@,
    {
        self.syntax
    }
}

/// `res name: type`
#[derive(Debug, Clone, Copy)]
pub struct Resource<'a> {
    syntax: &'a SyntaxNode,
}

impl<'a> View for Resource<'a> {
    type V = Tree;

    closed spec fn view(&self) -> Tree {
        self.syntax@
    }
}

impl<'a> Resource<'a> {
    /// The node is of the kind that the view is for.
    #[verifier::type_invariant]
    pub open spec fn well_formed(&self) -> bool {
        self@.kind() == Token::Resource
    }

    /// Whether a node of kind `kind` is one of these.
    pub fn can_cast(kind: Token) -> (r: bool)
        ensures
            r == (kind == Token::Resource),
    {
        kind == Token::Resource
    }

    /// The view of `node`, if it is of the right kind.
    pub fn cast(node: &'a SyntaxNode) -> (r: Option<Self>)
        ensures
            r.is_some() == (node@.kind() == Token::Resource),
            r.is_some() ==> r.unwrap()@ == node@,
    {
        proof {
            lemma_node_view(*node);
        }
        if Self::can_cast(node.kind) {
            Some(Resource { syntax: node })
        } else {
            None
        }
    }

    /// The node that this is a view of.
    pub fn syntax(&self) -> (r: &'a SyntaxNode)
        ensures
            r@ == self@,
    {
        self.syntax
    }
}

/// `use name`
#[derive(Debug, Clone, Copy)]
pub struct Import<'a> {
    syntax: &'a SyntaxNode,
}

impl<'a> View for Import<'a> {
    type V = Tree;

    closed spec fn view(&self) -> Tree {
        self.syntax@
    }
}

impl<'a> Import<'a> {
    /// The node is of the kind that the view is for.
    #[verifier::type_invariant]
    pub open spec fn well_formed(&self) -> bool {
        self@.kind() == Token::Import
    }

    /// Whether a node of kind `kind` is one of these.
    pub fn can_cast(kind: Token) -> (r: bool)
        ensures
            r == (kind == Token::Import),
    {
        kind == Token::Import
    }

    /// The view of `node`, if it is of the right kind.
    pub fn cast(node: &'a SyntaxNode) -> (r: Option<Self>)
        ensures
            r.is_some() == (node@.kind() == Token::Import),
            r.is_some() ==> r.unwrap()@ == node@,
    {
        proof {
            lemma_node_view(*node);
        }
        if Self::can_cast(node.kind) {
            Some(Import { syntax: node })
        } else {
            None
        }
    }

    /// The node that this is a view of.
    pub fn syntax(&self) -> (r: &'a SyntaxNode)
        ensures
            r@ == self@,
    {
        self.syntax
    }
}

/// `name [: type]`
#[derive(Debug, Clone, Copy)]
pub struct FieldType<'a> {
    syntax: &'a SyntaxNode,
}

impl<'a> View for FieldType<'a> {
    type V = Tree;

    closed spec fn view(&self) -> Tree {
        self.syntax@
    }
}

impl<'a> FieldType<'a> {
    /// The node is of the kind that the view is for.
    #[verifier::type_invariant]
    pub open spec fn well_formed(&self) -> bool {
        self@.kind() == Token::FieldType
    }

    /// Whether a node of kind `kind` is one of these.
    pub fn can_cast(kind: Token) -> (r: bool)
        ensures
            r == (kind == Token::FieldType),
    {
        kind == Token::FieldType
    }

    /// The view of `node`, if it is of the right kind.
    pub fn cast(node: &'a SyntaxNode) -> (r: Option<Self>)
        ensures
            r.is_some() == (node@.kind() == Token::FieldType),
            r.is_some() ==> r.unwrap()@ == node@,
    {
        proof {
            lemma_node_view(*node);
        }
        if Self::can_cast(node.kind) {
            Some(FieldType { syntax: node })
        } else {
            None
        }
    }

    /// The node that this is a view of.
    pub fn syntax(&self) -> (r: &'a SyntaxNode)
        ensures
            r@ == self@,
    {
        self.syntax
    }
}

/// A type given by its name.
#[derive(Debug, Clone, Copy)]
pub struct IdentifierType<'a> {
    syntax: &'a SyntaxNode,
}

impl<'a> View for IdentifierType<'a> {
    type V = Tree;

    closed spec fn view(&self) -> Tree {
        self.syntax@
    }
}

impl<'a> IdentifierType<'a> {
    /// The node is of the kind that the view is for.
    #[verifier::type_invariant]
    pub open spec fn well_formed(&self) -> bool {
        self@.kind() == Token::Literal
    }

    /// Whether a node of kind `kind` is one of these.
    pub fn can_cast(kind: Token) -> (r: bool)
        ensures
            r == (kind == Token::Literal),
    {
        kind == Token::Literal
    }

    /// The view of `node`, if it is of the right kind.
    pub fn cast(node: &'a SyntaxNode) -> (r: Option<Self>)
        ensures
            r.is_some() == (node@.kind() == Token::Literal),
            r.is_some() ==> r.unwrap()@ == node@,
    {
        proof {
            lemma_node_view(*node);
        }
        if Self::can_cast(node.kind) {
            Some(IdentifierType { syntax: node })
        } else {
            None
        }
    }

    /// The node that this is a view of.
    pub fn syntax(&self) -> (r: &'a SyntaxNode)
        ensures
            r@ == self@,
    {
        self.syntax
    }
}

/// `{ field, ... }`
#[derive(Debug, Clone, Copy)]
pub struct StructType<'a> {
    syntax: &'a SyntaxNode,
}

impl<'a> View for StructType<'a> {
    type V = Tree;

    closed spec fn view(&self) -> Tree {
        self.syntax@
    }
}

impl<'a> StructType<'a> {
    /// The node is of the kind that the view is for.
    #[verifier::type_invariant]
    pub open spec fn well_formed(&self) -> bool {
        self@.kind() == Token::StructType
    }

    /// Whether a node of kind `kind` is one of these.
    pub fn can_cast(kind: Token) -> (r: bool)
        ensures
            r == (kind == Token::StructType),
    {
        kind == Token::StructType
    }

    /// The view of `node`, if it is of the right kind.
    pub fn cast(node: &'a SyntaxNode) -> (r: Option<Self>)
        ensures
            r.is_some() == (node@.kind() == Token::StructType),
            r.is_some() ==> r.unwrap()@ == node@,
    {
        proof {
            lemma_node_view(*node);
        }
        if Self::can_cast(node.kind) {
            Some(StructType { syntax: node })
        } else {
            None
        }
    }

    /// The node that this is a view of.
    pub fn syntax(&self) -> (r: &'a SyntaxNode)
        ensures
            r@ == self@,
    {
        self.syntax
    }
}

/// `let lvalue = expr`
#[derive(Debug, Clone, Copy)]
pub struct Let<'a> {
    syntax: &'a SyntaxNode,
}

impl<'a> View for Let<'a> {
    type V = Tree;

    closed spec fn view(&self) -> Tree {
        self.syntax@
    }
}

impl<'a> Let<'a> {
    /// The node is of the kind that the view is for.
    #[verifier::type_invariant]
    pub open spec fn well_formed(&self) -> bool {
        self@.kind() == Token::Let
    }

    /// Whether a node of kind `kind` is one of these.
    pub fn can_cast(kind: Token) -> (r: bool)
        ensures
            r == (kind == Token::Let),
    {
        kind == Token::Let
    }

    /// The view of `node`, if it is of the right kind.
    pub fn cast(node: &'a SyntaxNode) -> (r: Option<Self>)
        ensures
            r.is_some() == (node@.kind() == Token::Let),
            r.is_some() ==> r.unwrap()@ == node@,
    {
        proof {
            lemma_node_view(*node);
        }
        if Self::can_cast(node.kind) {
            Some(Let { syntax: node })
        } else {
            None
        }
    }

    /// The node that this is a view of.
    pub fn syntax(&self) -> (r: &'a SyntaxNode)
        ensures
            r@ == self@,
    {
        self.syntax
    }
}

/// `del expr`
#[derive(Debug, Clone, Copy)]
pub struct Del<'a> {
    syntax: &'a SyntaxNode,
}

impl<'a> View for Del<'a> {
    type V = Tree;

    closed spec fn view(&self) -> Tree {
        self.syntax@
    }
}

impl<'a> Del<'a> {
    /// The node is of the kind that the view is for.
    #[verifier::type_invariant]
    pub open spec fn well_formed(&self) -> bool {
        self@.kind() == Token::Del
    }

    /// Whether a node of kind `kind` is one of these.
    pub fn can_cast(kind: Token) -> (r: bool)
        ensures
            r == (kind == Token::Del),
    {
        kind == Token::Del
    }

    /// The view of `node`, if it is of the right kind.
    pub fn cast(node: &'a SyntaxNode) -> (r: Option<Self>)
        ensures
            r.is_some() == (node@.kind() == Token::Del),
            r.is_some() ==> r.unwrap()@ == node@,
    {
        proof {
            lemma_node_view(*node);
        }
        if Self::can_cast(node.kind) {
            Some(Del { syntax: node })
        } else {
            None
        }
    }

    /// The node that this is a view of.
    pub fn syntax(&self) -> (r: &'a SyntaxNode)
        ensures
            r@ == self@,
    {
        self.syntax
    }
}

/// `if cond { ... } [else { ... }]`
#[derive(Debug, Clone, Copy)]
pub struct If<'a> {
    syntax: &'a SyntaxNode,
}

impl<'a> View for If<'a> {
    type V = Tree;

    closed spec fn view(&self) -> Tree {
        self.syntax@
    }
}

impl<'a> If<'a> {
    /// The node is of the kind that the view is for.
    #[verifier::type_invariant]
    pub open spec fn well_formed(&self) -> bool {
        self@.kind() == Token::If
    }

    /// Whether a node of kind `kind` is one of these.
    pub fn can_cast(kind: Token) -> (r: bool)
        ensures
            r == (kind == Token::If),
    {
        kind == Token::If
    }

    /// The view of `node`, if it is of the right kind.
    pub fn cast(node: &'a SyntaxNode) -> (r: Option<Self>)
        ensures
            r.is_some() == (node@.kind() == Token::If),
            r.is_some() ==> r.unwrap()@ == node@,
    {
        proof {
            lemma_node_view(*node);
        }
        if Self::can_cast(node.kind) {
            Some(If { syntax: node })
        } else {
            None
        }
    }

    /// The node that this is a view of.
    pub fn syntax(&self) -> (r: &'a SyntaxNode)
        ensures
            r@ == self@,
    {
        self.syntax
    }
}

/// `while cond { ... }`
#[derive(Debug, Clone, Copy)]
pub struct While<'a> {
    syntax: &'a SyntaxNode,
}

impl<'a> View for While<'a> {
    type V = Tree;

    closed spec fn view(&self) -> Tree {
        self.syntax@
    }
}

impl<'a> While<'a> {
    /// The node is of the kind that the view is for.
    #[verifier::type_invariant]
    pub open spec fn well_formed(&self) -> bool {
        self@.kind() == Token::While
    }

    /// Whether a node of kind `kind` is one of these.
    pub fn can_cast(kind: Token) -> (r: bool)
        ensures
            r == (kind == Token::While),
    {
        kind == Token::While
    }

    /// The view of `node`, if it is of the right kind.
    pub fn cast(node: &'a SyntaxNode) -> (r: Option<Self>)
        ensures
            r.is_some() == (node@.kind() == Token::While),
            r.is_some() ==> r.unwrap()@ == node@,
    {
        proof {
            lemma_node_view(*node);
        }
        if Self::can_cast(node.kind) {
            Some(While { syntax: node })
        } else {
            None
        }
    }

    /// The node that this is a view of.
    pub fn syntax(&self) -> (r: &'a SyntaxNode)
        ensures
            r@ == self@,
    {
        self.syntax
    }
}

/// `function(args, ...)`
#[derive(Debug, Clone, Copy)]
pub struct Call<'a> {
    syntax: &'a SyntaxNode,
}

impl<'a> View for Call<'a> {
    type V = Tree;

    closed spec fn view(&self) -> Tree {
        self.syntax@
    }
}

impl<'a> Call<'a> {
    /// The node is of the kind that the view is for.
    #[verifier::type_invariant]
    pub open spec fn well_formed(&self) -> bool {
        self@.kind() == Token::Call
    }

    /// Whether a node of kind `kind` is one of these.
    pub fn can_cast(kind: Token) -> (r: bool)
        ensures
            r == (kind == Token::Call),
    {
        kind == Token::Call
    }

    /// The view of `node`, if it is of the right kind.
    pub fn cast(node: &'a SyntaxNode) -> (r: Option<Self>)
        ensures
            r.is_some() == (node@.kind() == Token::Call),
            r.is_some() ==> r.unwrap()@ == node@,
    {
        proof {
            lemma_node_view(*node);
        }
        if Self::can_cast(node.kind) {
            Some(Call { syntax: node })
        } else {
            None
        }
    }

    /// The node that this is a view of.
    pub fn syntax(&self) -> (r: &'a SyntaxNode)
        ensures
            r@ == self@,
    {
        self.syntax
    }
}

/// A prefix operator and its operand.
#[derive(Debug, Clone, Copy)]
pub struct UnaryExpr<'a> {
    syntax: &'a SyntaxNode,
}

impl<'a> View for UnaryExpr<'a> {
    type V = Tree;

    closed spec fn view(&self) -> Tree {
        self.syntax@
    }
}

impl<'a> UnaryExpr<'a> {
    /// The node is of the kind that the view is for.
    #[verifier::type_invariant]
    pub open spec fn well_formed(&self) -> bool {
        self@.kind() == Token::Prefix
    }

    /// Whether a node of kind `kind` is one of these.
    pub fn can_cast(kind: Token) -> (r: bool)
        ensures
            r == (kind == Token::Prefix),
    {
        kind == Token::Prefix
    }

    /// The view of `node`, if it is of the right kind.
    pub fn cast(node: &'a SyntaxNode) -> (r: Option<Self>)
        ensures
            r.is_some() == (node@.kind() == Token::Prefix),
            r.is_some() ==> r.unwrap()@ == node@,
    {
        proof {
            lemma_node_view(*node);
        }
        if Self::can_cast(node.kind) {
            Some(UnaryExpr { syntax: node })
        } else {
            None
        }
    }

    /// The node that this is a view of.
    pub fn syntax(&self) -> (r: &'a SyntaxNode)
        ensures
            r@ == self@,
    {
        self.syntax
    }
}

/// An expression between parentheses.
#[derive(Debug, Clone, Copy)]
pub struct Paren<'a> {
    syntax: &'a SyntaxNode,
}

impl<'a> View for Paren<'a> {
    type V = Tree;

    closed spec fn view(&self) -> Tree {
        self.syntax@
    }
}

impl<'a> Paren<'a> {
    /// The node is of the kind that the view is for.
    #[verifier::type_invariant]
    pub open spec fn well_formed(&self) -> bool {
        self@.kind() == Token::Paren
    }

    /// Whether a node of kind `kind` is one of these.
    pub fn can_cast(kind: Token) -> (r: bool)
        ensures
            r == (kind == Token::Paren),
    {
        kind == Token::Paren
    }

    /// The view of `node`, if it is of the right kind.
    pub fn cast(node: &'a SyntaxNode) -> (r: Option<Self>)
        ensures
            r.is_some() == (node@.kind() == Token::Paren),
            r.is_some() ==> r.unwrap()@ == node@,
    {
        proof {
            lemma_node_view(*node);
        }
        if Self::can_cast(node.kind) {
            Some(Paren { syntax: node })
        } else {
            None
        }
    }

    /// The node that this is a view of.
    pub fn syntax(&self) -> (r: &'a SyntaxNode)
        ensures
            r@ == self@,
    {
        self.syntax
    }
}

/// An infix operator and its two operands.
#[derive(Debug, Clone, Copy)]
pub struct BinaryExpr<'a> {
    syntax: &'a SyntaxNode,
}

impl<'a> View for BinaryExpr<'a> {
    type V = Tree;

    closed spec fn view(&self) -> Tree {
        self.syntax@
    }
}

impl<'a> BinaryExpr<'a> {
    /// The node is of the kind that the view is for.
    #[verifier::type_invariant]
    pub open spec fn well_formed(&self) -> bool {
        self@.kind() == Token::Infix
    }

    /// Whether a node of kind `kind` is one of these.
    pub fn can_cast(kind: Token) -> (r: bool)
        ensures
            r == (kind == Token::Infix),
    {
        kind == Token::Infix
    }

    /// The view of `node`, if it is of the right kind.
    pub fn cast(node: &'a SyntaxNode) -> (r: Option<Self>)
        ensures
            r.is_some() == (node@.kind() == Token::Infix),
            r.is_some() ==> r.unwrap()@ == node@,
    {
        proof {
            lemma_node_view(*node);
        }
        if Self::can_cast(node.kind) {
            Some(BinaryExpr { syntax: node })
        } else {
            None
        }
    }

    /// The node that this is a view of.
    pub fn syntax(&self) -> (r: &'a SyntaxNode)
        ensures
            r@ == self@,
    {
        self.syntax
    }
}

/// `entity[Component]` or `[Resource]`
#[derive(Debug, Clone, Copy)]
pub struct ECSAccess<'a> {
    syntax: &'a SyntaxNode,
}

impl<'a> View for ECSAccess<'a> {
    type V = Tree;

    closed spec fn view(&self) -> Tree {
        self.syntax@
    }
}

impl<'a> ECSAccess<'a> {
    /// The node is of the kind that the view is for.
    #[verifier::type_invariant]
    pub open spec fn well_formed(&self) -> bool {
        self@.kind() == Token::ComponentAccess || self@.kind() == Token::ResourceAccess
    }

    /// Whether a node of kind `kind` is one of these.
    pub fn can_cast(kind: Token) -> (r: bool)
        ensures
            r == (kind == Token::ComponentAccess || kind == Token::ResourceAccess),
    {
        kind == Token::ComponentAccess || kind == Token::ResourceAccess
    }

    /// The view of `node`, if it is of the right kind.
    pub fn cast(node: &'a SyntaxNode) -> (r: Option<Self>)
        ensures
            r.is_some() == (node@.kind() == Token::ComponentAccess || node@.kind() == Token::ResourceAccess),
            r.is_some() ==> r.unwrap()@ == node@,
    {
        proof {
            lemma_node_view(*node);
        }
        if Self::can_cast(node.kind) {
            Some(ECSAccess { syntax: node })
        } else {
            None
        }
    }

    /// The node that this is a view of.
    pub fn syntax(&self) -> (r: &'a SyntaxNode)
        ensures
            r@ == self@,
    {
        self.syntax
    }
}

/// A number or a name.
#[derive(Debug, Clone, Copy)]
pub struct Literal<'a> {
    syntax: &'a SyntaxNode,
}

impl<'a> View for Literal<'a> {
    type V = Tree;

    closed spec fn view(&self) -> Tree {
        self.syntax@
    }
}

impl<'a> Literal<'a> {
    /// The node is of the kind that the view is for.
    #[verifier::type_invariant]
    pub open spec fn well_formed(&self) -> bool {
        self@.kind() == Token::Literal
    }

    /// Whether a node of kind `kind` is one of these.
    pub fn can_cast(kind: Token) -> (r: bool)
        ensures
            r == (kind == Token::Literal),
    {
        kind == Token::Literal
    }

    /// The view of `node`, if it is of the right kind.
    pub fn cast(node: &'a SyntaxNode) -> (r: Option<Self>)
        ensures
            r.is_some() == (node@.kind() == Token::Literal),
            r.is_some() ==> r.unwrap()@ == node@,
    {
        proof {
            lemma_node_view(*node);
        }
        if Self::can_cast(node.kind) {
            Some(Literal { syntax: node })
        } else {
            None
        }
    }

    /// The node that this is a view of.
    pub fn syntax(&self) -> (r: &'a SyntaxNode)
        ensures
            r@ == self@,
    {
        self.syntax
    }
}

/// `query [entity] { ... }`
#[derive(Debug, Clone, Copy)]
pub struct Query<'a> {
    syntax: &'a SyntaxNode,
}

impl<'a> View for Query<'a> {
    type V = Tree;

    closed spec fn view(&self) -> Tree {
        self.syntax@
    }
}

impl<'a> Query<'a> {
    /// The node is of the kind that the view is for.
    #[verifier::type_invariant]
    pub open spec fn well_formed(&self) -> bool {
        self@.kind() == Token::Query
    }

    /// Whether a node of kind `kind` is one of these.
    pub fn can_cast(kind: Token) -> (r: bool)
        ensures
            r == (kind == Token::Query),
    {
        kind == Token::Query
    }

    /// The view of `node`, if it is of the right kind.
    pub fn cast(node: &'a SyntaxNode) -> (r: Option<Self>)
        ensures
            r.is_some() == (node@.kind() == Token::Query),
            r.is_some() ==> r.unwrap()@ == node@,
    {
        proof {
            lemma_node_view(*node);
        }
        if Self::can_cast(node.kind) {
            Some(Query { syntax: node })
        } else {
            None
        }
    }

    /// The node that this is a view of.
    pub fn syntax(&self) -> (r: &'a SyntaxNode)
        ensures
            r@ == self@,
    {
        self.syntax
    }
}

/// `{ statement; ... }`
#[derive(Debug, Clone, Copy)]
pub struct Block<'a> {
    syntax: &'a SyntaxNode,
}

impl<'a> View for Block<'a> {
    type V = Tree;

    closed spec fn view(&self) -> Tree {
        self.syntax@
    }
}

impl<'a> Block<'a> {
    /// The node is of the kind that the view is for.
    #[verifier::type_invariant]
    pub open spec fn well_formed(&self) -> bool {
        self@.kind() == Token::Block
    }

    /// Whether a node of kind `kind` is one of these.
    pub fn can_cast(kind: Token) -> (r: bool)
        ensures
            r == (kind == Token::Block),
    {
        kind == Token::Block
    }

    /// The view of `node`, if it is of the right kind.
    pub fn cast(node: &'a SyntaxNode) -> (r: Option<Self>)
        ensures
            r.is_some() == (node@.kind() == Token::Block),
            r.is_some() ==> r.unwrap()@ == node@,
    {
        proof {
            lemma_node_view(*node);
        }
        if Self::can_cast(node.kind) {
            Some(Block { syntax: node })
        } else {
            None
        }
    }

    /// The node that this is a view of.
    pub fn syntax(&self) -> (r: &'a SyntaxNode)
        ensures
            r@ == self@,
    {
        self.syntax
    }
}

/// `Name { field: expr, ... }`
#[derive(Debug, Clone, Copy)]
pub struct Struct<'a> {
    syntax: &'a SyntaxNode,
}

impl<'a> View for Struct<'a> {
    type V = Tree;

    closed spec fn view(&self) -> Tree {
        self.syntax@
    }
}

impl<'a> Struct<'a> {
    /// The node is of the kind that the view is for.
    #[verifier::type_invariant]
    pub open spec fn well_formed(&self) -> bool {
        self@.kind() == Token::Struct
    }

    /// Whether a node of kind `kind` is one of these.
    pub fn can_cast(kind: Token) -> (r: bool)
        ensures
            r == (kind == Token::Struct),
    {
        kind == Token::Struct
    }

    /// The view of `node`, if it is of the right kind.
    pub fn cast(node: &'a SyntaxNode) -> (r: Option<Self>)
        ensures
            r.is_some() == (node@.kind() == Token::Struct),
            r.is_some() ==> r.unwrap()@ == node@,
    {
        proof {
            lemma_node_view(*node);
        }
        if Self::can_cast(node.kind) {
            Some(Struct { syntax: node })
        } else {
            None
        }
    }

    /// The node that this is a view of.
    pub fn syntax(&self) -> (r: &'a SyntaxNode)
        ensures
            r@ == self@,
    {
        self.syntax
    }
}

/// A top-level item.
#[derive(Debug, Clone, Copy)]
pub enum Item<'a> {
    System(System<'a>),
    Resource(Resource<'a>),
    Component(Component<'a>),
    Import(Import<'a>),
}

impl<'a> View for Item<'a> {
    type V = Tree;

    open spec fn view(&self) -> Tree {
        match self {
            Item::System(x) => x@,
            Item::Resource(x) => x@,
            Item::Component(x) => x@,
            Item::Import(x) => x@,
        }
    }
}

impl<'a> Item<'a> {
    /// Whether a node of kind `kind` is one of these.
    pub fn can_cast(kind: Token) -> (r: bool)
        ensures
            r == NodeClass::Item.has(kind),
    {
        NodeClass::Item.contains(kind)
    }

    /// The view of `node`, if it is of one of the kinds.
    pub fn cast(node: &'a SyntaxNode) -> (r: Option<Self>)
        ensures
            r.is_some() == NodeClass::Item.has(node@.kind()),
            r.is_some() ==> r.unwrap()@ == node@,
    {
        proof {
            lemma_node_view(*node);
        }
        if System::can_cast(node.kind) {
            match System::cast(node) {
                Some(x) => Some(Item::System(x)),
                None => None,
            }
        } else if Resource::can_cast(node.kind) {
            match Resource::cast(node) {
                Some(x) => Some(Item::Resource(x)),
                None => None,
            }
        } else if Component::can_cast(node.kind) {
            match Component::cast(node) {
                Some(x) => Some(Item::Component(x)),
                None => None,
            }
        } else if Import::can_cast(node.kind) {
            match Import::cast(node) {
                Some(x) => Some(Item::Import(x)),
                None => None,
            }
        } else {
            None
        }
    }

    /// The node that this is a view of.
    pub fn syntax(&self) -> (r: &'a SyntaxNode)
        ensures
            r@ == self@,
    {
        match self {
            Item::System(x) => x.syntax(),
            Item::Resource(x) => x.syntax(),
            Item::Component(x) => x.syntax(),
            Item::Import(x) => x.syntax(),
        }
    }

    /// The `n`-th child of `node` that is one of these.
    pub fn nth(node: &'a SyntaxNode, n: usize) -> (r: Option<Self>)
        ensures
            match r {
                Some(x) => node@.nth(NodeClass::Item, n as int) == Some(x@),
                None => node@.nth(NodeClass::Item, n as int).is_none(),
            },
    {
        match node.nth_node(NodeClass::Item, n) {
            Some(x) => {
                proof {
                    Tree::lemma_select_has(node@.children(), NodeClass::Item, n as int);
                }
                Self::cast(x)
            },
            None => None,
        }
    }

    /// The children of `node` that are of these, from the `skip`-th on.
    pub fn all(node: &'a SyntaxNode, skip: usize) -> (r: Vec<Self>)
        ensures
            r@.len() == if skip <= node@.nodes(NodeClass::Item).len() {
                node@.nodes(NodeClass::Item).len() - skip
            } else {
                0
            },
            forall|i: int| 0 <= i < r@.len() ==> (#[trigger] r@[i])@ == node@.nodes(NodeClass::Item)[skip + i],
    {
        let found = node.child_nodes(NodeClass::Item);
        let mut out: Vec<Self> = Vec::new();
        let mut i: usize = skip;
        while i < found.len()
            invariant
                skip <= i,
                i <= found@.len() || i == skip,
                nodes_view(found@) == node@.nodes(NodeClass::Item),
                out@.len() == if i <= found@.len() { i - skip } else { 0 },
                forall|k: int| 0 <= k < out@.len() ==> (#[trigger] out@[k])@ == node@.nodes(NodeClass::Item)[skip + k],
            decreases found@.len() - i,
        {
            proof {
                Tree::lemma_select_has(node@.children(), NodeClass::Item, i as int);
                assert(nodes_view(found@)[i as int] == found@[i as int]@);
            }
            match Self::cast(found[i]) {
                Some(x) => {
                    out.push(x);
                },
                None => {
                    assert(false);
                },
            }
            i = i + 1;
        }
        out
    }
}

/// A type: a name or a struct.
#[derive(Debug, Clone, Copy)]
pub enum Type<'a> {
    IdentifierType(IdentifierType<'a>),
    StructType(StructType<'a>),
}

impl<'a> View for Type<'a> {
    type V = Tree;

    open spec fn view(&self) -> Tree {
        match self {
            Type::IdentifierType(x) => x@,
            Type::StructType(x) => x@,
        }
    }
}

impl<'a> Type<'a> {
    /// Whether a node of kind `kind` is one of these.
    pub fn can_cast(kind: Token) -> (r: bool)
        ensures
            r == NodeClass::Type.has(kind),
    {
        NodeClass::Type.contains(kind)
    }

    /// The view of `node`, if it is of one of the kinds.
    pub fn cast(node: &'a SyntaxNode) -> (r: Option<Self>)
        ensures
            r.is_some() == NodeClass::Type.has(node@.kind()),
            r.is_some() ==> r.unwrap()@ == node@,
    {
        proof {
            lemma_node_view(*node);
        }
        if IdentifierType::can_cast(node.kind) {
            match IdentifierType::cast(node) {
                Some(x) => Some(Type::IdentifierType(x)),
                None => None,
            }
        } else if StructType::can_cast(node.kind) {
            match StructType::cast(node) {
                Some(x) => Some(Type::StructType(x)),
                None => None,
            }
        } else {
            None
        }
    }

    /// The node that this is a view of.
    pub fn syntax(&self) -> (r: &'a SyntaxNode)
        ensures
            r@ == self@,
    {
        match self {
            Type::IdentifierType(x) => x.syntax(),
            Type::StructType(x) => x.syntax(),
        }
    }

    /// The `n`-th child of `node` that is one of these.
    pub fn nth(node: &'a SyntaxNode, n: usize) -> (r: Option<Self>)
        ensures
            match r {
                Some(x) => node@.nth(NodeClass::Type, n as int) == Some(x@),
                None => node@.nth(NodeClass::Type, n as int).is_none(),
            },
    {
        match node.nth_node(NodeClass::Type, n) {
            Some(x) => {
                proof {
                    Tree::lemma_select_has(node@.children(), NodeClass::Type, n as int);
                }
                Self::cast(x)
            },
            None => None,
        }
    }

    /// The children of `node` that are of these, from the `skip`-th on.
    pub fn all(node: &'a SyntaxNode, skip: usize) -> (r: Vec<Self>)
        ensures
            r@.len() == if skip <= node@.nodes(NodeClass::Type).len() {
                node@.nodes(NodeClass::Type).len() - skip
            } else {
                0
            },
            forall|i: int| 0 <= i < r@.len() ==> (#[trigger] r@[i])@ == node@.nodes(NodeClass::Type)[skip + i],
    {
        let found = node.child_nodes(NodeClass::Type);
        let mut out: Vec<Self> = Vec::new();
        let mut i: usize = skip;
        while i < found.len()
            invariant
                skip <= i,
                i <= found@.len() || i == skip,
                nodes_view(found@) == node@.nodes(NodeClass::Type),
                out@.len() == if i <= found@.len() { i - skip } else { 0 },
                forall|k: int| 0 <= k < out@.len() ==> (#[trigger] out@[k])@ == node@.nodes(NodeClass::Type)[skip + k],
            decreases found@.len() - i,
        {
            proof {
                Tree::lemma_select_has(node@.children(), NodeClass::Type, i as int);
                assert(nodes_view(found@)[i as int] == found@[i as int]@);
            }
            match Self::cast(found[i]) {
                Some(x) => {
                    out.push(x);
                },
                None => {
                    assert(false);
                },
            }
            i = i + 1;
        }
        out
    }
}

/// An expression.
#[derive(Debug, Clone, Copy)]
pub enum Expr<'a> {
    UnaryExpr(UnaryExpr<'a>),
    BinaryExpr(BinaryExpr<'a>),
    Literal(Literal<'a>),
    Query(Query<'a>),
    Block(Block<'a>),
    ECSAccess(ECSAccess<'a>),
    Let(Let<'a>),
    Del(Del<'a>),
    If(If<'a>),
    While(While<'a>),
    Call(Call<'a>),
    Struct(Struct<'a>),
    Paren(Paren<'a>),
}

impl<'a> View for Expr<'a> {
    type V = Tree;

    open spec fn view(&self) -> Tree {
        match self {
            Expr::UnaryExpr(x) => x@,
            Expr::BinaryExpr(x) => x@,
            Expr::Literal(x) => x@,
            Expr::Query(x) => x@,
            Expr::Block(x) => x@,
            Expr::ECSAccess(x) => x@,
            Expr::Let(x) => x@,
            Expr::Del(x) => x@,
            Expr::If(x) => x@,
            Expr::While(x) => x@,
            Expr::Call(x) => x@,
            Expr::Struct(x) => x@,
            Expr::Paren(x) => x@,
        }
    }
}

impl<'a> Expr<'a> {
    /// Whether a node of kind `kind` is one of these.
    pub fn can_cast(kind: Token) -> (r: bool)
        ensures
            r == NodeClass::Expr.has(kind),
    {
        NodeClass::Expr.contains(kind)
    }

    /// The view of `node`, if it is of one of the kinds.
    pub fn cast(node: &'a SyntaxNode) -> (r: Option<Self>)
        ensures
            r.is_some() == NodeClass::Expr.has(node@.kind()),
            r.is_some() ==> r.unwrap()@ == node@,
    {
        proof {
            lemma_node_view(*node);
        }
        if UnaryExpr::can_cast(node.kind) {
            match UnaryExpr::cast(node) {
                Some(x) => Some(Expr::UnaryExpr(x)),
                None => None,
            }
        } else if BinaryExpr::can_cast(node.kind) {
            match BinaryExpr::cast(node) {
                Some(x) => Some(Expr::BinaryExpr(x)),
                None => None,
            }
        } else if Literal::can_cast(node.kind) {
            match Literal::cast(node) {
                Some(x) => Some(Expr::Literal(x)),
                None => None,
            }
        } else if Query::can_cast(node.kind) {
            match Query::cast(node) {
                Some(x) => Some(Expr::Query(x)),
                None => None,
            }
        } else if Block::can_cast(node.kind) {
            match Block::cast(node) {
                Some(x) => Some(Expr::Block(x)),
                None => None,
            }
        } else if ECSAccess::can_cast(node.kind) {
            match ECSAccess::cast(node) {
                Some(x) => Some(Expr::ECSAccess(x)),
                None => None,
            }
        } else if Let::can_cast(node.kind) {
            match Let::cast(node) {
                Some(x) => Some(Expr::Let(x)),
                None => None,
            }
        } else if Del::can_cast(node.kind) {
            match Del::cast(node) {
                Some(x) => Some(Expr::Del(x)),
                None => None,
            }
        } else if If::can_cast(node.kind) {
            match If::cast(node) {
                Some(x) => Some(Expr::If(x)),
                None => None,
            }
        } else if While::can_cast(node.kind) {
            match While::cast(node) {
                Some(x) => Some(Expr::While(x)),
                None => None,
            }
        } else if Call::can_cast(node.kind) {
            match Call::cast(node) {
                Some(x) => Some(Expr::Call(x)),
                None => None,
            }
        } else if Struct::can_cast(node.kind) {
            match Struct::cast(node) {
                Some(x) => Some(Expr::Struct(x)),
                None => None,
            }
        } else if Paren::can_cast(node.kind) {
            match Paren::cast(node) {
                Some(x) => Some(Expr::Paren(x)),
                None => None,
            }
        } else {
            None
        }
    }

    /// The node that this is a view of.
    pub fn syntax(&self) -> (r: &'a SyntaxNode)
        ensures
            r@ == self@,
    {
        match self {
            Expr::UnaryExpr(x) => x.syntax(),
            Expr::BinaryExpr(x) => x.syntax(),
            Expr::Literal(x) => x.syntax(),
            Expr::Query(x) => x.syntax(),
            Expr::Block(x) => x.syntax(),
            Expr::ECSAccess(x) => x.syntax(),
            Expr::Let(x) => x.syntax(),
            Expr::Del(x) => x.syntax(),
            Expr::If(x) => x.syntax(),
            Expr::While(x) => x.syntax(),
            Expr::Call(x) => x.syntax(),
            Expr::Struct(x) => x.syntax(),
            Expr::Paren(x) => x.syntax(),
        }
    }

    /// The `n`-th child of `node` that is one of these.
    pub fn nth(node: &'a SyntaxNode, n: usize) -> (r: Option<Self>)
        ensures
            match r {
                Some(x) => node@.nth(NodeClass::Expr, n as int) == Some(x@),
                None => node@.nth(NodeClass::Expr, n as int).is_none(),
            },
    {
        match node.nth_node(NodeClass::Expr, n) {
            Some(x) => {
                proof {
                    Tree::lemma_select_has(node@.children(), NodeClass::Expr, n as int);
                }
                Self::cast(x)
            },
            None => None,
        }
    }

    /// The children of `node` that are of these, from the `skip`-th on.
    pub fn all(node: &'a SyntaxNode, skip: usize) -> (r: Vec<Self>)
        ensures
            r@.len() == if skip <= node@.nodes(NodeClass::Expr).len() {
                node@.nodes(NodeClass::Expr).len() - skip
            } else {
                0
            },
            forall|i: int| 0 <= i < r@.len() ==> (#[trigger] r@[i])@ == node@.nodes(NodeClass::Expr)[skip + i],
    {
        let found = node.child_nodes(NodeClass::Expr);
        let mut out: Vec<Self> = Vec::new();
        let mut i: usize = skip;
        while i < found.len()
            invariant
                skip <= i,
                i <= found@.len() || i == skip,
                nodes_view(found@) == node@.nodes(NodeClass::Expr),
                out@.len() == if i <= found@.len() { i - skip } else { 0 },
                forall|k: int| 0 <= k < out@.len() ==> (#[trigger] out@[k])@ == node@.nodes(NodeClass::Expr)[skip + k],
            decreases found@.len() - i,
        {
            proof {
                Tree::lemma_select_has(node@.children(), NodeClass::Expr, i as int);
                assert(nodes_view(found@)[i as int] == found@[i as int]@);
            }
            match Self::cast(found[i]) {
                Some(x) => {
                    out.push(x);
                },
                None => {
                    assert(false);
                },
            }
            i = i + 1;
        }
        out
    }
}

impl Tree {
    /// What `select` hands out is a node of a kind in the class.
    pub proof fn lemma_select_has(ts: Seq<Tree>, class: NodeClass, n: int)
        requires
            0 <= n < Self::select(ts, class).len(),
        ensures
            Self::select(ts, class)[n] is Node,
            class.has(Self::select(ts, class)[n].kind()),
        decreases ts.len(),
    {
        if ts.len() > 0 {
            let rest = Self::select(ts.drop_last(), class);
            if n < rest.len() {
                Self::lemma_select_has(ts.drop_last(), class, n);
            }
        }
    }
}

impl Tree {
    /// What `select` hands out is one of the trees it selects from.
    pub proof fn lemma_select_size(ts: Seq<Tree>, class: NodeClass, n: int)
        requires
            0 <= n < Self::select(ts, class).len(),
        ensures
            Self::select(ts, class)[n].size() <= Self::sizes(ts),
        decreases ts.len(),
    {
        if ts.len() > 0 {
            let rest = Self::select(ts.drop_last(), class);
            if n < rest.len() {
                Self::lemma_select_size(ts.drop_last(), class, n);
            }
        }
    }

    /// A child is smaller than its parent.
    pub proof fn lemma_nth_smaller(self, class: NodeClass, n: int)
        requires
            self.nth(class, n).is_some(),
        ensures
            self.nth(class, n).unwrap().size() < self.size(),
    {
        Self::lemma_select_size(self.children(), class, n);
    }

    /// Each child among `nodes` is smaller than its parent.
    pub proof fn lemma_nodes_smaller(self, class: NodeClass, n: int)
        requires
            0 <= n < self.nodes(class).len(),
        ensures
            self.nodes(class)[n].size() < self.size(),
    {
        Self::lemma_select_size(self.children(), class, n);
    }

    /// The expression of each field of a struct literal is one of the
    /// trees that the fields were taken from.
    pub proof fn lemma_field_pairs_size(ts: Seq<Tree>, from: int, n: int)
        requires
            0 <= n < Self::field_pairs(ts, from).len(),
        ensures
            Self::field_pairs(ts, from)[n].1.size() <= Self::sizes(ts),
        decreases ts.len() - from,
    {
        let i = Self::next_token(ts, from, TokenClass::Exactly(Token::IDENT));
        let j = Self::next_node(ts, i + 1, NodeClass::Expr);
        if n == 0 {
            Self::lemma_size_member(ts, j);
        } else {
            Self::lemma_field_pairs_size(ts, j + 1, n - 1);
        }
    }
}

impl<'a> Root<'a> {
    /// The items of the file, in order.
    pub fn items(&self) -> (r: Vec<Item<'a>>)
        ensures
            r@.len() == if 0 <= self@.nodes(NodeClass::Item).len() {
                self@.nodes(NodeClass::Item).len() - 0
            } else {
                0
            },
            forall|i: int| 0 <= i < r@.len() ==> (#[trigger] r@[i])@ == self@.nodes(NodeClass::Item)[0 + i],
    {
        Item::all(self.syntax, 0)
    }
}
impl<'a> System<'a> {
    /// The name of the system, if it has one.
    pub fn ident(&self) -> (r: Option<String>)
        ensures
            is_token_text(r, self@, Token::IDENT),
    {
        self.syntax.token_text(Token::IDENT)
    }

    /// The body of the system.
    pub fn block(&self) -> (r: Option<Block<'a>>)
        ensures
            match r {
                Some(x) => self@.nth(NodeClass::Exactly(Token::Block), 0) == Some(x@),
                None => self@.nth(NodeClass::Exactly(Token::Block), 0).is_none(),
            },
    {
        match self.syntax.nth_node(NodeClass::Exactly(Token::Block), 0) {
            Some(x) => {
                proof {
                    Tree::lemma_select_has(self@.children(), NodeClass::Exactly(Token::Block), 0);
                }
                Block::cast(x)
            },
            None => None,
        }
    }
}
impl<'a> Component<'a> {
    /// The name and type of the component.
    pub fn field(&self) -> (r: Option<FieldType<'a>>)
        ensures
            match r {
                Some(x) => self@.nth(NodeClass::Exactly(Token::FieldType), 0) == Some(x@),
                None => self@.nth(NodeClass::Exactly(Token::FieldType), 0).is_none(),
            },
    {
        match self.syntax.nth_node(NodeClass::Exactly(Token::FieldType), 0) {
            Some(x) => {
                proof {
                    Tree::lemma_select_has(self@.children(), NodeClass::Exactly(Token::FieldType), 0);
                }
                FieldType::cast(x)
            },
            None => None,
        }
    }
}
impl<'a> Resource<'a> {
    /// The name and type of the resource.
    pub fn field(&self) -> (r: Option<FieldType<'a>>)
        ensures
            match r {
                Some(x) => self@.nth(NodeClass::Exactly(Token::FieldType), 0) == Some(x@),
                None => self@.nth(NodeClass::Exactly(Token::FieldType), 0).is_none(),
            },
    {
        match self.syntax.nth_node(NodeClass::Exactly(Token::FieldType), 0) {
            Some(x) => {
                proof {
                    Tree::lemma_select_has(self@.children(), NodeClass::Exactly(Token::FieldType), 0);
                }
                FieldType::cast(x)
            },
            None => None,
        }
    }
}
impl<'a> Import<'a> {
    /// The name of the module that is imported.
    pub fn ident(&self) -> (r: Option<String>)
        ensures
            is_token_text(r, self@, Token::IDENT),
    {
        self.syntax.token_text(Token::IDENT)
    }
}
impl<'a> FieldType<'a> {
    /// The name of the field.
    pub fn ident(&self) -> (r: Option<String>)
        ensures
            is_token_text(r, self@, Token::IDENT),
    {
        self.syntax.token_text(Token::IDENT)
    }

    /// The type of the field, if one is given.
    pub fn type_(&self) -> (r: Option<Type<'a>>)
        ensures
            match r {
                Some(x) => self@.nth(NodeClass::Type, 0) == Some(x@),
                None => self@.nth(NodeClass::Type, 0).is_none(),
            },
    {
        Type::nth(self.syntax, 0)
    }
}
impl<'a> IdentifierType<'a> {
    /// The name of the type.
    pub fn ident(&self) -> (r: Option<String>)
        ensures
            is_token_text(r, self@, Token::IDENT),
    {
        self.syntax.token_text(Token::IDENT)
    }
}
impl<'a> Let<'a> {
    /// What is bound or written.
    pub fn lvalue(&self) -> (r: Option<Expr<'a>>)
        ensures
            match r {
                Some(x) => self@.nth(NodeClass::Expr, 0) == Some(x@),
                None => self@.nth(NodeClass::Expr, 0).is_none(),
            },
    {
        Expr::nth(self.syntax, 0)
    }

    /// The value.
    pub fn expr(&self) -> (r: Option<Expr<'a>>)
        ensures
            match r {
                Some(x) => self@.nth(NodeClass::Expr, 1) == Some(x@),
                None => self@.nth(NodeClass::Expr, 1).is_none(),
            },
    {
        Expr::nth(self.syntax, 1)
    }
}
impl<'a> Del<'a> {
    /// What is removed.
    pub fn expr(&self) -> (r: Option<Expr<'a>>)
        ensures
            match r {
                Some(x) => self@.nth(NodeClass::Expr, 0) == Some(x@),
                None => self@.nth(NodeClass::Expr, 0).is_none(),
            },
    {
        Expr::nth(self.syntax, 0)
    }
}
impl<'a> If<'a> {
    /// The condition.
    pub fn cond(&self) -> (r: Option<Expr<'a>>)
        ensures
            match r {
                Some(x) => self@.nth(NodeClass::Expr, 0) == Some(x@),
                None => self@.nth(NodeClass::Expr, 0).is_none(),
            },
    {
        Expr::nth(self.syntax, 0)
    }

    /// The branch taken when the condition holds.
    pub fn expr(&self) -> (r: Option<Expr<'a>>)
        ensures
            match r {
                Some(x) => self@.nth(NodeClass::Expr, 1) == Some(x@),
                None => self@.nth(NodeClass::Expr, 1).is_none(),
            },
    {
        Expr::nth(self.syntax, 1)
    }

    /// Whether the `if` has an `else`.
    pub fn has_else(&self) -> (r: bool)
        ensures
            r == self@.token(TokenClass::Exactly(Token::ELSE)).is_some(),
    {
        self.syntax.token(TokenClass::Exactly(Token::ELSE)).is_some()
    }

    /// The branch taken when the condition does not hold: `None` without an
    /// `else`, `Some(None)` for an `else` whose block is missing.
    pub fn else_(&self) -> (r: Option<Option<Expr<'a>>>)
        ensures
            r.is_some() == self@.token(TokenClass::Exactly(Token::ELSE)).is_some(),
            r.is_some() ==> match r.unwrap() {
                Some(x) => self@.nth(NodeClass::Expr, 2) == Some(x@),
                None => self@.nth(NodeClass::Expr, 2).is_none(),
            },
    {
        if self.has_else() {
            Some(Expr::nth(self.syntax, 2))
        } else {
            None
        }
    }
}
impl<'a> While<'a> {
    /// The condition.
    pub fn cond(&self) -> (r: Option<Expr<'a>>)
        ensures
            match r {
                Some(x) => self@.nth(NodeClass::Expr, 0) == Some(x@),
                None => self@.nth(NodeClass::Expr, 0).is_none(),
            },
    {
        Expr::nth(self.syntax, 0)
    }

    /// The body.
    pub fn expr(&self) -> (r: Option<Expr<'a>>)
        ensures
            match r {
                Some(x) => self@.nth(NodeClass::Expr, 1) == Some(x@),
                None => self@.nth(NodeClass::Expr, 1).is_none(),
            },
    {
        Expr::nth(self.syntax, 1)
    }
}
impl<'a> Call<'a> {
    /// What is called.
    pub fn function(&self) -> (r: Option<Expr<'a>>)
        ensures
            match r {
                Some(x) => self@.nth(NodeClass::Expr, 0) == Some(x@),
                None => self@.nth(NodeClass::Expr, 0).is_none(),
            },
    {
        Expr::nth(self.syntax, 0)
    }

    /// The arguments, in order.
    pub fn args(&self) -> (r: Vec<Expr<'a>>)
        ensures
            r@.len() == if 1 <= self@.nodes(NodeClass::Expr).len() {
                self@.nodes(NodeClass::Expr).len() - 1
            } else {
                0
            },
            forall|i: int| 0 <= i < r@.len() ==> (#[trigger] r@[i])@ == self@.nodes(NodeClass::Expr)[1 + i],
    {
        Expr::all(self.syntax, 1)
    }
}
impl<'a> Paren<'a> {
    /// The expression between the parentheses.
    pub fn expr(&self) -> (r: Option<Expr<'a>>)
        ensures
            match r {
                Some(x) => self@.nth(NodeClass::Expr, 0) == Some(x@),
                None => self@.nth(NodeClass::Expr, 0).is_none(),
            },
    {
        Expr::nth(self.syntax, 0)
    }
}

impl<'a> UnaryExpr<'a> {
    /// The operand.
    pub fn val(&self) -> (r: Option<Expr<'a>>)
        ensures
            match r {
                Some(x) => self@.nth(NodeClass::Expr, 0) == Some(x@),
                None => self@.nth(NodeClass::Expr, 0).is_none(),
            },
    {
        Expr::nth(self.syntax, 0)
    }

    /// The operator.
    pub fn op(&self) -> (r: Option<&'a SyntaxToken>)
        ensures
            match r {
                Some(t) => self@.token(TokenClass::PrefixOp) == Some(t@),
                None => self@.token(TokenClass::PrefixOp).is_none(),
            },
    {
        self.syntax.token(TokenClass::PrefixOp)
    }
}
impl<'a> BinaryExpr<'a> {
    /// The left operand.
    pub fn left(&self) -> (r: Option<Expr<'a>>)
        ensures
            match r {
                Some(x) => self@.nth(NodeClass::Expr, 0) == Some(x@),
                None => self@.nth(NodeClass::Expr, 0).is_none(),
            },
    {
        Expr::nth(self.syntax, 0)
    }

    /// The right operand.
    pub fn right(&self) -> (r: Option<Expr<'a>>)
        ensures
            match r {
                Some(x) => self@.nth(NodeClass::Expr, 1) == Some(x@),
                None => self@.nth(NodeClass::Expr, 1).is_none(),
            },
    {
        Expr::nth(self.syntax, 1)
    }

    /// The operator.
    pub fn op(&self) -> (r: Option<&'a SyntaxToken>)
        ensures
            match r {
                Some(t) => self@.token(TokenClass::InfixOp) == Some(t@),
                None => self@.token(TokenClass::InfixOp).is_none(),
            },
    {
        self.syntax.token(TokenClass::InfixOp)
    }
}
impl<'a> Literal<'a> {
    /// The text of the number, if the literal is one.
    pub fn as_number(&self) -> (r: Option<String>)
        ensures
            is_token_text(r, self@, Token::NUMBER),
    {
        self.syntax.token_text(Token::NUMBER)
    }

    /// The name, if the literal is one.
    pub fn as_identifier(&self) -> (r: Option<String>)
        ensures
            is_token_text(r, self@, Token::IDENT),
    {
        self.syntax.token_text(Token::IDENT)
    }
}
impl<'a> Query<'a> {
    /// The name of the entity variable.
    pub fn entity(&self) -> (r: Option<String>)
        ensures
            is_token_text(r, self@, Token::IDENT),
    {
        self.syntax.token_text(Token::IDENT)
    }

    /// The body of the query.
    pub fn block(&self) -> (r: Option<Block<'a>>)
        ensures
            match r {
                Some(x) => self@.nth(NodeClass::Exactly(Token::Block), 0) == Some(x@),
                None => self@.nth(NodeClass::Exactly(Token::Block), 0).is_none(),
            },
    {
        match self.syntax.nth_node(NodeClass::Exactly(Token::Block), 0) {
            Some(x) => {
                proof {
                    Tree::lemma_select_has(self@.children(), NodeClass::Exactly(Token::Block), 0);
                }
                Block::cast(x)
            },
            None => None,
        }
    }
}
impl<'a> Block<'a> {
    /// The statements of the block, in order.
    pub fn exprs(&self) -> (r: Vec<Expr<'a>>)
        ensures
            r@.len() == if 0 <= self@.nodes(NodeClass::Expr).len() {
                self@.nodes(NodeClass::Expr).len() - 0
            } else {
                0
            },
            forall|i: int| 0 <= i < r@.len() ==> (#[trigger] r@[i])@ == self@.nodes(NodeClass::Expr)[0 + i],
    {
        Expr::all(self.syntax, 0)
    }
}
impl<'a> StructType<'a> {
    /// The fields of the struct, in order.
    pub fn fields(&self) -> (r: Vec<FieldType<'a>>)
        ensures
            r@.len() == self@.nodes(NodeClass::Exactly(Token::FieldType)).len(),
            forall|i: int| 0 <= i < r@.len() ==> (#[trigger] r@[i])@ == self@.nodes(
                NodeClass::Exactly(Token::FieldType),
            )[i],
    {
        let class = NodeClass::Exactly(Token::FieldType);
        let found = self.syntax.child_nodes(class);
        let mut out: Vec<FieldType<'a>> = Vec::new();
        let mut i: usize = 0;
        while i < found.len()
            invariant
                class == NodeClass::Exactly(Token::FieldType),
                nodes_view(found@) == self@.nodes(class),
                out@.len() == i <= found@.len(),
                forall|k: int| 0 <= k < out@.len() ==> (#[trigger] out@[k])@ == self@.nodes(class)[k],
            decreases found@.len() - i,
        {
            proof {
                Tree::lemma_select_has(self@.children(), class, i as int);
                assert(nodes_view(found@)[i as int] == found@[i as int]@);
            }
            match FieldType::cast(found[i]) {
                Some(x) => {
                    out.push(x);
                },
                None => {
                    assert(false);
                },
            }
            i = i + 1;
        }
        out
    }
}
impl<'a> ECSAccess<'a> {
    /// Whether this is an access to a component of an entity, rather than
    /// to a resource.
    pub fn is_component(&self) -> (r: bool)
        ensures
            r == (self@.kind() == Token::ComponentAccess),
    {
        proof {
            lemma_node_view(*self.syntax);
        }
        self.syntax.kind == Token::ComponentAccess
    }

    /// The entity of a component access: `None` for a resource access,
    /// `Some(None)` where the entity is missing.
    pub fn entity(&self) -> (r: Option<Option<Expr<'a>>>)
        ensures
            r.is_some() == (self@.kind() == Token::ComponentAccess),
            r.is_some() ==> match r.unwrap() {
                Some(x) => self@.nth(NodeClass::Expr, 0) == Some(x@),
                None => self@.nth(NodeClass::Expr, 0).is_none(),
            },
    {
        if self.is_component() {
            Some(Expr::nth(self.syntax, 0))
        } else {
            None
        }
    }

    /// The component or resource that is accessed.
    pub fn component(&self) -> (r: Option<Expr<'a>>)
        ensures
            match r {
                Some(x) => self@.nth(
                    NodeClass::Expr,
                    if self@.kind() == Token::ComponentAccess { 1int } else { 0int },
                ) == Some(x@),
                None => self@.nth(
                    NodeClass::Expr,
                    if self@.kind() == Token::ComponentAccess { 1int } else { 0int },
                ).is_none(),
            },
    {
        if self.is_component() {
            Expr::nth(self.syntax, 1)
        } else {
            Expr::nth(self.syntax, 0)
        }
    }
}
impl<'a> Struct<'a> {
    /// The name of the struct: that of the first literal among the
    /// children.
    pub fn ident(&self) -> (r: Option<String>)
        ensures
            match self@.nth(NodeClass::Exactly(Token::Literal), 0) {
                Some(l) => is_token_text(r, l, Token::IDENT),
                None => r.is_none(),
            },
    {
        match self.syntax.nth_node(NodeClass::Exactly(Token::Literal), 0) {
            Some(l) => l.token_text(Token::IDENT),
            None => None,
        }
    }

    /// The fields of the literal: each name with the first expression that
    /// follows it.
    pub fn fields(&self) -> (r: Vec<(String, Expr<'a>)>)
        ensures
            r@.len() == Tree::field_pairs(self@.children(), 0).len(),
            forall|i: int|
                0 <= i < r@.len() ==> {
                    &&& is_text(
                        (#[trigger] r@[i]).0,
                        Tree::field_pairs(self@.children(), 0)[i].0.leaf_text(),
                    )
                    &&& r@[i].1@ == Tree::field_pairs(self@.children(), 0)[i].1
                },
    {
        proof {
            self.syntax.lemma_children();
        }
        let ghost ts = self@.children();
        let ghost all = Tree::field_pairs(ts, 0);
        let n = self.syntax.children.len();
        let mut out: Vec<(String, Expr<'a>)> = Vec::new();
        let mut from: usize = 0;
        loop
            invariant
                ts == self@.children(),
                ts == elements_view(self.syntax.children@),
                n == self.syntax.children@.len(),
                all == Tree::field_pairs(ts, 0),
                from <= n,
                all.len() == out@.len() + Tree::field_pairs(ts, from as int).len(),
                forall|k: int|
                    0 <= k < Tree::field_pairs(ts, from as int).len() ==> all[out@.len() + k]
                        == #[trigger] Tree::field_pairs(ts, from as int)[k],
                forall|i: int|
                    0 <= i < out@.len() ==> {
                        &&& is_text((#[trigger] out@[i]).0, all[i].0.leaf_text())
                        &&& out@[i].1@ == all[i].1
                    },
            ensures
                all.len() == out@.len(),
            decreases n - from,
        {
            let i = self.syntax.next_token(from, TokenClass::Exactly(Token::IDENT));
            if i >= n {
                break;
            }
            let j = self.syntax.next_node(i + 1, NodeClass::Expr);
            if j >= n {
                break;
            }
            let ghost here = Tree::field_pairs(ts, from as int);
            let ghost rest = Tree::field_pairs(ts, j + 1);
            assert(here == seq![(ts[i as int], ts[j as int])] + rest);
            let name = match &self.syntax.children[i] {
                SyntaxElement::Token(t) => t.text.clone(),
                SyntaxElement::Node(_) => String::new(),
            };
            assert(ts[j as int] == element_view(self.syntax.children@[j as int]));
            assert(ts[i as int] == element_view(self.syntax.children@[i as int]));
            match &self.syntax.children[j] {
                SyntaxElement::Node(x) => {
                    match Expr::cast(x) {
                        Some(e) => {
                            proof {
                                assert(all[out@.len() as int] == here[0]);
                                assert forall|k: int| 0 <= k < rest.len() implies all[out@.len()
                                    + 1 + k] == #[trigger] rest[k] by {
                                    assert(here[k + 1] == rest[k]);
                                }
                            }
                            out.push((name, e));
                        },
                        None => {
                            assert(false);
                        },
                    }
                },
                SyntaxElement::Token(_) => {
                    assert(false);
                },
            }
            from = j + 1;
        }
        out
    }
}

/// The typed view of a whole syntax tree: its root.
pub fn run(cst: &SyntaxNode) -> (r: Option<Root<'_>>)
    ensures
        r.is_some() == (cst@.kind() == Token::Root),
        r.is_some() ==> r.unwrap()@ == cst@,
{
    Root::cast(cst)
}

} // verus!

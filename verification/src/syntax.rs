//! The lossless syntax tree: nodes with a kind and children, and leaf
//! tokens that own their text.

use crate::token::Token;
use vstd::prelude::*;
use vstd::utf8::encode_utf8;

verus! {

/// Mathematical model of a syntax tree.
pub enum Tree {
    Node { kind: Token, start: int, end: int, children: Seq<Tree> },
    Leaf { kind: Token, start: int, end: int, text: Seq<u8> },
}

/// A leaf of the tree: a token with its text and its byte range.
#[derive(Debug)]
pub struct SyntaxToken {
    pub kind: Token,
    pub start: usize,
    pub end: usize,
    pub text: String,
}

/// An inner node of the tree.
#[derive(Debug)]
pub struct SyntaxNode {
    pub kind: Token,
    pub start: usize,
    pub end: usize,
    pub children: Vec<SyntaxElement>,
}

/// A child of a node: a node or a token.
#[derive(Debug)]
pub enum SyntaxElement {
    Node(SyntaxNode),
    Token(SyntaxToken),
}

impl Tree {
    pub open spec fn kind(self) -> Token {
        match self {
            Tree::Node { kind, .. } => kind,
            Tree::Leaf { kind, .. } => kind,
        }
    }

    pub open spec fn start(self) -> int {
        match self {
            Tree::Node { start, .. } => start,
            Tree::Leaf { start, .. } => start,
        }
    }

    pub open spec fn end(self) -> int {
        match self {
            Tree::Node { end, .. } => end,
            Tree::Leaf { end, .. } => end,
        }
    }

    /// The text of the tree: the texts of its leaves, in order.
    pub open spec fn text(self) -> Seq<u8>
        decreases self,
    {
        match self {
            Tree::Node { children, .. } => Self::text_of(children),
            Tree::Leaf { text, .. } => text,
        }
    }

    /// The text of a sequence of trees.
    pub open spec fn text_of(ts: Seq<Tree>) -> Seq<u8>
        decreases ts,
    {
        if ts.len() == 0 {
            Seq::empty()
        } else {
            Self::text_of(ts.drop_last()) + ts.last().text()
        }
    }

    /// A node over `children`, which spans from the start of the first to
    /// the end of the last.
    pub open spec fn node(kind: Token, children: Seq<Tree>) -> Tree {
        Tree::Node {
            kind,
            start: if children.len() > 0 { children[0].start() } else { 0 },
            end: if children.len() > 0 { children.last().end() } else { 0 },
            children,
        }
    }

    pub proof fn lemma_text_of_push(ts: Seq<Tree>, t: Tree)
        ensures
            Self::text_of(ts.push(t)) == Self::text_of(ts) + t.text(),
    {
        assert(ts.push(t).drop_last() =~= ts);
    }

    pub proof fn lemma_text_of_concat(a: Seq<Tree>, b: Seq<Tree>)
        ensures
            Self::text_of(a + b) == Self::text_of(a) + Self::text_of(b),
        decreases b.len(),
    {
        if b.len() == 0 {
            assert(a + b =~= a);
            assert(Self::text_of(a) + Seq::<u8>::empty() =~= Self::text_of(a));
        } else {
            assert((a + b).drop_last() =~= a + b.drop_last());
            Self::lemma_text_of_concat(a, b.drop_last());
            assert((Self::text_of(a) + Self::text_of(b.drop_last())) + b.last().text()
                =~= Self::text_of(a) + (Self::text_of(b.drop_last()) + b.last().text()));
        }
    }
}

impl View for SyntaxToken {
    type V = Tree;

    open spec fn view(&self) -> Tree {
        Tree::Leaf {
            kind: self.kind,
            start: self.start as int,
            end: self.end as int,
            text: encode_utf8(self.text@),
        }
    }
}

/// The model of a child.
pub open spec fn element_view(e: SyntaxElement) -> Tree
    decreases e,
{
    match e {
        SyntaxElement::Node(n) => node_view(n),
        SyntaxElement::Token(t) => t@,
    }
}

/// The model of a node.
pub open spec fn node_view(n: SyntaxNode) -> Tree
    decreases n,
{
    Tree::Node {
        kind: n.kind,
        start: n.start as int,
        end: n.end as int,
        children: Seq::new(
            n.children@.len(),
            |i: int|
                if 0 <= i < n.children@.len() {
                    element_view(n.children@[i])
                } else {
                    arbitrary()
                },
        ),
    }
}

/// The models of a sequence of children.
pub open spec fn elements_view(es: Seq<SyntaxElement>) -> Seq<Tree> {
    Seq::new(es.len(), |i: int| element_view(es[i]))
}

impl View for SyntaxElement {
    type V = Tree;

    open spec fn view(&self) -> Tree {
        element_view(*self)
    }
}

impl View for SyntaxNode {
    type V = Tree;

    open spec fn view(&self) -> Tree {
        node_view(*self)
    }
}

pub proof fn lemma_node_view(n: SyntaxNode)
    ensures
        n@ == (Tree::Node {
            kind: n.kind,
            start: n.start as int,
            end: n.end as int,
            children: elements_view(n.children@),
        }),
{
    assert(n@->Node_children =~= elements_view(n.children@));
}

impl SyntaxElement {
    pub fn kind(&self) -> (r: Token)
        ensures
            r == self@.kind(),
    {
        match self {
            SyntaxElement::Node(n) => n.kind,
            SyntaxElement::Token(t) => t.kind,
        }
    }

    pub fn start(&self) -> (r: usize)
        ensures
            r == self@.start(),
    {
        match self {
            SyntaxElement::Node(n) => n.start,
            SyntaxElement::Token(t) => t.start,
        }
    }

    pub fn end(&self) -> (r: usize)
        ensures
            r == self@.end(),
    {
        match self {
            SyntaxElement::Node(n) => n.end,
            SyntaxElement::Token(t) => t.end,
        }
    }
}

impl SyntaxNode {
    /// Builds the node of kind `kind` over `children`.
    pub fn new(kind: Token, children: Vec<SyntaxElement>) -> (r: SyntaxNode)
        ensures
            r@ == Tree::node(kind, elements_view(children@)),
    {
        let n = children.len();
        let start = if n > 0 { children[0].start() } else { 0 };
        let end = if n > 0 { children[n - 1].end() } else { 0 };
        let r = SyntaxNode { kind, start, end, children };
        proof {
            lemma_node_view(r);
        }
        r
    }
}


impl Tree {
    /// The number of nodes and leaves of the tree.
    pub open spec fn size(self) -> nat
        decreases self,
    {
        match self {
            Tree::Node { children, .. } => 1 + Self::sizes(children),
            Tree::Leaf { .. } => 1,
        }
    }

    /// The number of nodes and leaves of the trees.
    pub open spec fn sizes(ts: Seq<Tree>) -> nat
        decreases ts,
    {
        if ts.len() == 0 {
            0
        } else {
            Self::sizes(ts.drop_last()) + ts.last().size()
        }
    }

    /// One of several trees is no larger than all together.
    pub proof fn lemma_size_member(ts: Seq<Tree>, i: int)
        requires
            0 <= i < ts.len(),
        ensures
            ts[i].size() <= Self::sizes(ts),
        decreases ts.len(),
    {
        if i < ts.len() - 1 {
            Self::lemma_size_member(ts.drop_last(), i);
        }
    }
}

} // verus!

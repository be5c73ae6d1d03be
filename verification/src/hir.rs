//! The intermediate representation: the nodes that lowering makes of a
//! syntax tree. Nodes live in the arena of their module and refer to each
//! other by index only.

use crate::report::ModuleID;
use crate::resolved_effect::ResolvedEffects;
use crate::resolved_type::ResolvedType;
use vstd::prelude::*;

verus! {

/// Index of a node in the arena of its module.
pub type NodeIdx = u32;

/// Address of a node: its module and its index there.
#[derive(PartialEq, Eq, Hash, Clone, Copy, Debug)]
pub struct GlobalIdx(pub ModuleID, pub u32);

impl GlobalIdx {
    pub fn new(module: ModuleID, idx: NodeIdx) -> (r: Self)
        ensures
            r == GlobalIdx(module, idx),
    {
        GlobalIdx(module, idx)
    }

    /// The address of the `i`-th node of `module`. An arena holds at most
    /// `u32::MAX` nodes: of a larger `i` the low 32 bits are taken.
    pub fn from_index(module: ModuleID, i: usize) -> (r: Self)
        ensures
            r.0 == module,
            i <= u32::MAX ==> r.1 == i,
            r.1 == i as u32,
    {
        GlobalIdx(module, #[verifier::truncate] (i as u32))
    }

    pub fn module(&self) -> (r: ModuleID)
        ensures
            r == self.0,
    {
        self.0
    }

    pub fn idx(&self) -> (r: NodeIdx)
        ensures
            r == self.1,
    {
        self.1
    }

    pub fn destruct(&self) -> (r: (ModuleID, NodeIdx))
        ensures
            r == (self.0, self.1),
    {
        (self.0, self.1)
    }

    /// Whether two addresses are equal.
    pub fn same(&self, other: &GlobalIdx) -> (r: bool)
        ensures
            r == (*self == *other),
    {
        self.0 == other.0 && self.1 == other.1
    }
}

/// The operators of the language. Each names a builtin function.
#[derive(Debug, Clone, Copy, PartialEq, Eq, Hash, Structural)]
pub enum Operator {
    Add,
    Sub,
    Mul,
    Div,
    Neg,
    Eq,
    Less,
    LessEq,
    Greater,
    GreaterEq,
    Not,
    Or,
    And,
}

/// What a definition is known by: a name or an operator.
#[derive(Debug, PartialEq, Eq, Hash)]
pub enum Identifier {
    Name(String),
    Operator(Operator),
}

/// Mathematical model of an identifier.
pub enum IdentModel {
    Name(Seq<char>),
    Operator(Operator),
}

impl View for Identifier {
    type V = IdentModel;

    open spec fn view(&self) -> IdentModel {
        match self {
            Identifier::Name(s) => IdentModel::Name(s@),
            Identifier::Operator(o) => IdentModel::Operator(*o),
        }
    }
}

impl Identifier {
    /// Whether two identifiers are equal.
    pub fn same(&self, other: &Identifier) -> (r: bool)
        ensures
            r == (self@ == other@),
    {
        match (self, other) {
            (Identifier::Name(a), Identifier::Name(b)) => *a == *b,
            (Identifier::Operator(a), Identifier::Operator(b)) => *a == *b,
            _ => false,
        }
    }

    /// A copy of the identifier.
    pub fn clone(&self) -> (r: Identifier)
        ensures
            r@ == self@,
    {
        match self {
            Identifier::Name(a) => Identifier::Name(a.clone()),
            Identifier::Operator(o) => Identifier::Operator(*o),
        }
    }
}

/// A name with the node of its type.
#[derive(Debug)]
pub struct TypedIdent {
    pub ident: String,
    pub ty: NodeIdx,
}

impl TypedIdent {
    pub fn identifier(&self) -> (r: Identifier)
        ensures
            r@ == IdentModel::Name(self.ident@),
    {
        Identifier::Name(self.ident.clone())
    }
}

pub type Resource = TypedIdent;

pub type Component = TypedIdent;

/// A type given by its name.
#[derive(Debug)]
pub struct TypeIdent(pub String);

/// A struct type: its fields in order.
#[derive(Debug)]
pub struct StructType(pub Vec<TypedIdent>);

/// A system: its name, if it has one, and its body.
#[derive(Debug)]
pub struct System {
    pub ident: Option<String>,
    pub block: NodeIdx,
}

/// An expression. Operators have become calls of the builtin function
/// that the operator names.
#[derive(Debug)]
#[allow(inconsistent_fields)]
pub enum Expr {
    Block(Vec<NodeIdx>),
    Identifier(Identifier),
    /// A number literal, as it is written in the source.
    Number(String),
    ComponentAccess { entity: NodeIdx, component: NodeIdx },
    ResourceAccess { resource: NodeIdx },
    MemberAccess { base: NodeIdx, member: NodeIdx },
    Assign { lvalue: NodeIdx, expr: NodeIdx },
    FunctionCall { function: NodeIdx, args: Vec<NodeIdx> },
    Query { entity: String, block: NodeIdx },
    Let { lvalue: NodeIdx, expr: NodeIdx },
    Del { expr: NodeIdx },
    If { cond: NodeIdx, expr: NodeIdx, otherwise: Option<NodeIdx> },
    While { cond: NodeIdx, expr: NodeIdx },
    Struct { ident: Identifier, fields: Vec<(String, NodeIdx)> },
    /// Stands where an expression is missing or malformed.
    Poison,
}

/// A node of the intermediate representation.
#[derive(Debug)]
pub enum Node {
    System(System),
    Resource(Resource),
    Component(Component),
    Import(String),
    TypeIdent(TypeIdent),
    Struct(StructType),
    Expr(Expr),
    /// A type that the host supplies.
    BuiltinType { identifier: Identifier, ty: ResolvedType, effects: ResolvedEffects },
    /// A function that the host supplies.
    BuiltinFunction { identifier: Identifier, ty: ResolvedType, effects: ResolvedEffects },
}

impl Node {
    /// The identifier, if the node is an expression that is one.
    pub fn as_expr_identifier(&self) -> (r: Option<&Identifier>)
        ensures
            match r {
                Some(i) => *self matches Node::Expr(Expr::Identifier(j)) && j == *i,
                None => !(*self matches Node::Expr(Expr::Identifier(_))),
            },
    {
        match self {
            Node::Expr(Expr::Identifier(ident)) => Some(ident),
            _ => None,
        }
    }
}


impl Expr {
    /// Whether every node that the expression refers to has an index below
    /// `i`.
    pub open spec fn below(self, i: int) -> bool {
        match self {
            Expr::Block(ids) => forall|k: int| 0 <= k < ids@.len() ==> #[trigger] ids@[k] < i,
            Expr::Identifier(_) | Expr::Number(_) | Expr::Poison => true,
            Expr::ComponentAccess { entity, component } => entity < i && component < i,
            Expr::ResourceAccess { resource } => resource < i,
            Expr::MemberAccess { base, member } => base < i && member < i,
            Expr::Assign { lvalue, expr } => lvalue < i && expr < i,
            Expr::FunctionCall { function, args } => function < i && forall|k: int|
                0 <= k < args@.len() ==> #[trigger] args@[k] < i,
            Expr::Query { block, .. } => block < i,
            Expr::Let { lvalue, expr } => lvalue < i && expr < i,
            Expr::Del { expr } => expr < i,
            Expr::If { cond, expr, otherwise } => cond < i && expr < i && (otherwise.is_some()
                ==> otherwise.unwrap() < i),
            Expr::While { cond, expr } => cond < i && expr < i,
            Expr::Struct { fields, .. } => forall|k: int|
                0 <= k < fields@.len() ==> (#[trigger] fields@[k]).1 < i,
        }
    }
}

impl Node {
    /// Whether every node that the node refers to has an index below `i`.
    pub open spec fn below(self, i: int) -> bool {
        match self {
            Node::System(s) => s.block < i,
            Node::Resource(f) | Node::Component(f) => f.ty < i,
            Node::Import(_) | Node::TypeIdent(_) => true,
            Node::Struct(s) => forall|k: int| 0 <= k < s.0@.len() ==> (#[trigger] s.0@[k]).ty < i,
            Node::Expr(e) => e.below(i),
            Node::BuiltinType { .. } | Node::BuiltinFunction { .. } => true,
        }
    }
}

/// Whether every node refers only to nodes before it. Lowering makes the
/// parts of a construct first, so its arenas are of this form, and a pass
/// that follows the references of a node comes to an end.
pub open spec fn wf_nodes(nodes: Seq<Node>) -> bool {
    forall|i: int| 0 <= i < nodes.len() ==> (#[trigger] nodes[i]).below(i)
}

} // verus!

//! Name resolution, as a mathematical function: which definition each
//! identifier and each name of a type stands for.
//!
//! The nodes of a module are visited in the order of the program. A block
//! opens a scope; a `let` of a plain name and the entity variable of a
//! query declare into the innermost scope. A name that stands for nothing
//! gets a diagnostic and no entry.

use crate::cache::ResolvedDefinition;
use crate::hir::{Expr, GlobalIdx, IdentModel, Identifier, NodeIdx, Node};
use crate::module_index::World;
use crate::name_scope::{lookup, ScopeModel};
use crate::report::{ErrorCode, ModuleID, Note, Report, ReportKind};
use vstd::prelude::*;

verus! {

/// State of name resolution: the scopes at the point reached, the names
/// resolved so far, and the diagnostics of the module so far.
pub struct NameState {
    pub scopes: Seq<ScopeModel>,
    pub names: Map<GlobalIdx, ResolvedDefinition>,
    pub errors: Seq<Report>,
}

/// The indices in a list of fields of a struct literal.
pub open spec fn field_ids(fields: Seq<(String, NodeIdx)>) -> Seq<NodeIdx> {
    Seq::new(fields.len(), |k: int| fields[k].1)
}

/// The indices of the types in a list of fields of a struct type.
pub open spec fn type_ids(fields: Seq<crate::hir::TypedIdent>) -> Seq<NodeIdx> {
    Seq::new(fields.len(), |k: int| fields[k].ty)
}

impl NameState {
    /// Declares `name` in the innermost scope.
    pub open spec fn declare(self, name: IdentModel, def: GlobalIdx) -> NameState {
        if self.scopes.len() > 0 {
            NameState {
                scopes: self.scopes.update(
                    self.scopes.len() - 1,
                    self.scopes.last().insert(name, ResolvedDefinition(def)),
                ),
                ..self
            }
        } else {
            self
        }
    }

    /// Declares the names `names` of module `m`, in order.
    pub open spec fn declare_all(self, names: Seq<(IdentModel, NodeIdx)>, m: ModuleID) -> NameState
        decreases names.len(),
    {
        if names.len() == 0 {
            self
        } else {
            self.declare_all(names.drop_last(), m).declare(
                names.last().0,
                GlobalIdx(m, names.last().1),
            )
        }
    }

    pub open spec fn push_scope(self) -> NameState {
        NameState { scopes: self.scopes.push(Map::empty()), ..self }
    }

    pub open spec fn pop_scope(self) -> NameState {
        NameState {
            scopes: if self.scopes.len() > 0 {
                self.scopes.drop_last()
            } else {
                self.scopes
            },
            ..self
        }
    }
}

impl World {
    /// The diagnostic of kind `code` for the node at `g`.
    pub open spec fn error_at(self, code: ErrorCode, g: GlobalIdx) -> Report {
        Report {
            kind: ReportKind::Error,
            code,
            module: g.0,
            offset: self.span(g).0,
            label: Some(self.span(g)),
            expected: None,
            wanted: None,
            note: Note::Absent,
        }
    }

    /// Resolves the name `name` at the node `g`: an entry where it stands
    /// for something, a diagnostic of kind `code` where not.
    pub open spec fn bind(self, st: NameState, g: GlobalIdx, name: IdentModel, code: ErrorCode) -> NameState {
        match lookup(st.scopes, name) {
            Some(def) => NameState { names: st.names.insert(g, def), ..st },
            None => NameState { errors: st.errors.push(self.error_at(code, g)), ..st },
        }
    }

    /// Resolves the names in the node `i` of module `m` and in what it
    /// refers to.
    pub open spec fn resolve_node(self, m: ModuleID, i: NodeIdx, st: NameState) -> NameState
        decreases i, 2int, 0nat,
    {
        let g = GlobalIdx(m, i);
        if !self.has(g) {
            st
        } else {
            match self.node(g) {
                Node::System(system) => {
                    let declared = match system.ident {
                        Some(ident) => st.declare(IdentModel::Name(ident@), g),
                        None => st,
                    };
                    self.visit(m, system.block, i, declared)
                },
                Node::Resource(f) | Node::Component(f) => self.visit(m, f.ty, i, st),
                Node::TypeIdent(name) => self.bind(
                    st,
                    g,
                    IdentModel::Name(name.0@),
                    ErrorCode::TypeNameNotFound,
                ),
                Node::Struct(s) => self.visit_all(m, type_ids(s.0@), i, st),
                Node::Expr(e) => match e {
                    Expr::Block(ids) => self.visit_all(m, ids@, i, st.push_scope()).pop_scope(),
                    Expr::Identifier(name) => self.bind(st, g, name@, ErrorCode::NameNotFound),
                    Expr::FunctionCall { function, args } => self.visit_all(
                        m,
                        args@,
                        i,
                        self.visit(m, function, i, st),
                    ),
                    Expr::Query { entity, block } => self.visit(
                        m,
                        block,
                        i,
                        st.declare(IdentModel::Name(entity@), g),
                    ),
                    Expr::Number(_) | Expr::Poison => st,
                    Expr::ComponentAccess { entity, component } => self.visit(
                        m,
                        component,
                        i,
                        self.visit(m, entity, i, st),
                    ),
                    Expr::ResourceAccess { resource } => self.visit(m, resource, i, st),
                    Expr::MemberAccess { base, .. } => self.visit(m, base, i, st),
                    Expr::Assign { lvalue, expr } => self.visit(
                        m,
                        expr,
                        i,
                        self.visit(m, lvalue, i, st),
                    ),
                    Expr::Let { lvalue, expr } => {
                        let bound = if self.has(GlobalIdx(m, lvalue)) {
                            match self.node(GlobalIdx(m, lvalue)) {
                                Node::Expr(Expr::Identifier(ident)) => st.declare(
                                    ident@,
                                    GlobalIdx(m, lvalue),
                                ),
                                _ => self.visit(m, lvalue, i, st),
                            }
                        } else {
                            st
                        };
                        self.visit(m, expr, i, bound)
                    },
                    Expr::Del { expr } => self.visit(m, expr, i, st),
                    Expr::If { cond, expr, otherwise } => {
                        let then = self.visit(m, expr, i, self.visit(m, cond, i, st));
                        match otherwise {
                            Some(otherwise) => self.visit(m, otherwise, i, then),
                            None => then,
                        }
                    },
                    Expr::While { cond, expr } => self.visit(
                        m,
                        expr,
                        i,
                        self.visit(m, cond, i, st),
                    ),
                    Expr::Struct { ident, fields } => self.visit_all(
                        m,
                        field_ids(fields@),
                        i,
                        self.bind(st, g, ident@, ErrorCode::StructNameNotFound),
                    ),
                },
                Node::BuiltinType { .. } | Node::BuiltinFunction { .. } | Node::Import(_) => st,
            }
        }
    }

    /// Resolves the names in the node `c`, to which the node `i` refers.
    pub open spec fn visit(self, m: ModuleID, c: NodeIdx, i: NodeIdx, st: NameState) -> NameState
        decreases i, 0int, 0nat,
    {
        if c < i {
            self.resolve_node(m, c, st)
        } else {
            st
        }
    }

    /// Resolves the names in the nodes `ids`, to which the node `i`
    /// refers, in order.
    pub open spec fn visit_all(self, m: ModuleID, ids: Seq<NodeIdx>, i: NodeIdx, st: NameState) -> NameState
        decreases i, 1int, ids.len(),
    {
        if ids.len() == 0 {
            st
        } else {
            self.visit(m, ids.last(), i, self.visit_all(m, ids.drop_last(), i, st))
        }
    }

    /// Brings the names of the top-level items of module `target` into
    /// scope.
    pub open spec fn import_module(self, target: ModuleID, st: NameState) -> NameState {
        if target < self.modules.len() && target < self.tops.len() {
            st.declare_all(self.names(target), target)
        } else {
            st
        }
    }

    /// Brings into scope what the imports among the nodes `ids` of module
    /// `m` name, in order. An import of a module that is not registered
    /// gets a diagnostic.
    pub open spec fn import_items(self, m: ModuleID, ids: Seq<NodeIdx>, st: NameState) -> NameState
        decreases ids.len(),
    {
        if ids.len() == 0 {
            st
        } else {
            let before = self.import_items(m, ids.drop_last(), st);
            let g = GlobalIdx(m, ids.last());
            if self.has(g) {
                match self.node(g) {
                    Node::Import(path) => match self.module_of(path@) {
                        Some(target) => self.import_module(target, before),
                        None => NameState {
                            errors: before.errors.push(self.error_at(ErrorCode::NameNotFound, g)),
                            ..before
                        },
                    },
                    _ => before,
                }
            } else {
                before
            }
        }
    }

    /// Resolves the names in the nodes `ids` of module `m`, in order.
    pub open spec fn resolve_items(self, m: ModuleID, ids: Seq<NodeIdx>, st: NameState) -> NameState
        decreases ids.len(),
    {
        if ids.len() == 0 {
            st
        } else {
            self.resolve_node(m, ids.last(), self.resolve_items(m, ids.drop_last(), st))
        }
    }

    /// Resolves the names of module `m`, given the names resolved and the
    /// diagnostics recorded so far: in one scope, first what the module
    /// imports is declared, then its own top-level items, and then its
    /// top-level items are visited in order.
    pub open spec fn resolve_module(
        self,
        m: ModuleID,
        names: Map<GlobalIdx, ResolvedDefinition>,
        errors: Seq<Report>,
    ) -> NameState {
        let start = NameState { scopes: seq![Map::empty()], names, errors };
        let imported = self.import_module(m, self.import_items(m, self.tops[m as int], start));
        self.resolve_items(m, self.tops[m as int], imported)
    }
}

} // verus!

//! Type resolution, as a mathematical function: the type of each node,
//! and the diagnostics for what does not fit.
//!
//! Types are worked out on demand and kept. A node whose type is asked for
//! while it is being worked out refers to itself: it gets a diagnostic and
//! the poison type. A node of the poison type has no type for what uses it,
//! so one error gives one diagnostic.

use crate::effects::Names;
use crate::hir::{Expr, GlobalIdx, IdentModel, Identifier, NodeIdx, Node, Operator, TypedIdent};
use crate::module_index::World;
use crate::names::field_ids;
use crate::report::{ErrorCode, ModuleID, NoteModel, ReportKind, ReportModel};
use crate::resolved_type::TypeModel;
use vstd::prelude::*;

verus! {

/// Mathematical model of a resolved type: the type, and whether it is that
/// of a component or resource.
pub type Ty = (TypeModel, bool);

/// The types kept, by node.
pub type TypeModelMap = Map<GlobalIdx, Ty>;

/// State of type resolution: the types kept, and the diagnostics of the
/// module so far.
pub struct TypeState {
    pub types: TypeModelMap,
    pub errors: Seq<ReportModel>,
}

/// What resolving a node yields: its type, if it has one, and the state.
pub type Typed = (Option<Ty>, TypeState);

pub open spec fn plain(t: TypeModel) -> Ty {
    (t, false)
}

/// The type of the field `name` among `fields`: that of the first field
/// of the name.
pub open spec fn field_type(fields: Seq<(Seq<char>, TypeModel)>, name: Seq<char>) -> Option<TypeModel>
    decreases fields.len(),
{
    if fields.len() == 0 {
        None
    } else if fields[0].0 == name {
        Some(fields[0].1)
    } else {
        field_type(fields.drop_first(), name)
    }
}

impl TypeState {
    pub open spec fn set(self, g: GlobalIdx, t: Ty) -> TypeState {
        TypeState { types: self.types.insert(g, t), ..self }
    }

    pub open spec fn report(self, r: ReportModel) -> TypeState {
        TypeState { errors: self.errors.push(r), ..self }
    }
}

impl World {
    /// The number of nodes of module `m` with an index below `n` of which
    /// no type is kept.
    pub open spec fn untyped_in(self, types: TypeModelMap, m: int, n: nat) -> nat
        decreases n,
    {
        if n == 0 {
            0
        } else {
            self.untyped_in(types, m, (n - 1) as nat) + if types.contains_key(
                GlobalIdx(m as usize, (n - 1) as u32),
            ) {
                0nat
            } else {
                1nat
            }
        }
    }

    /// The number of nodes of the first `k` modules of which no type is
    /// kept.
    pub open spec fn untyped_upto(self, types: TypeModelMap, k: nat) -> nat
        decreases k,
    {
        if k == 0 {
            0
        } else {
            self.untyped_upto(types, (k - 1) as nat) + self.untyped_in(
                types,
                k - 1,
                self.modules[k - 1].nodes.len(),
            )
        }
    }

    /// The number of nodes of which no type is kept. Each time a type is
    /// asked for that is not kept, this number goes down: that is why type
    /// resolution comes to an end.
    pub open spec fn untyped(self, types: TypeModelMap) -> nat {
        self.untyped_upto(types, self.modules.len())
    }

    /// A diagnostic of kind `code` at the node `at`, with a label at the
    /// node `label`.
    pub open spec fn type_error(
        self,
        code: ErrorCode,
        at: GlobalIdx,
        label: GlobalIdx,
        wanted: Option<TypeModel>,
        note: NoteModel,
    ) -> ReportModel {
        ReportModel {
            kind: ReportKind::Error,
            code,
            module: at.0,
            offset: self.span(at).0,
            label: Some(self.span(label)),
            expected: None,
            wanted,
            note,
        }
    }

    /// A condition must be a boolean or come from the store.
    pub open spec fn check_truthy(self, t: Ty, g: GlobalIdx, st: TypeState) -> TypeState {
        if t.0 != TypeModel::Bool && !t.1 {
            st.report(
                self.type_error(ErrorCode::ExpectedTruthy, g, g, None, NoteModel::Found(t.0)),
            )
        } else {
            st
        }
    }

    /// The type `a` of the node `g` must be `b`.
    pub open spec fn check_eq(self, a: Ty, b: TypeModel, g: GlobalIdx, st: TypeState) -> TypeState {
        if a.0 != b {
            st.report(
                self.type_error(ErrorCode::TypeMismatch, g, g, Some(b), NoteModel::Found(a.0)),
            )
        } else {
            st
        }
    }

    /// The type of the node `g` must come from the store.
    pub open spec fn check_from_ecs(self, t: Ty, g: GlobalIdx, st: TypeState) -> TypeState {
        if !t.1 {
            st.report(self.type_error(ErrorCode::NotFromStore, g, g, None, NoteModel::Absent))
        } else {
            st
        }
    }

    /// The type of the definition `g`, which some node refers to by name.
    /// A type that is kept is taken as it is; of a definition that is being
    /// worked on there is none, and it gets a diagnostic. Otherwise the
    /// definition is marked as being worked on, and resolved.
    pub open spec fn ty_resolve(self, names: Names, g: GlobalIdx, bound: nat, st: TypeState) -> Typed
        decreases bound, 0nat, 0int, 0nat,
    {
        if st.types.contains_key(g) {
            let t = st.types[g];
            if t.0 == TypeModel::Recursion {
                (
                    None,
                    st.set(g, plain(TypeModel::Poison)).report(
                        self.type_error(ErrorCode::RecursiveType, g, g, None, NoteModel::Absent),
                    ),
                )
            } else if t.0 == TypeModel::Poison {
                (None, st)
            } else {
                (Some(t), st)
            }
        } else if !self.has(g) {
            (None, st)
        } else {
            let marked = st.set(g, plain(TypeModel::Recursion));
            if self.untyped(marked.types) < bound {
                self.ty_node(names, g.0, g.1, marked)
            } else {
                (None, marked)
            }
        }
    }

    /// The type of the node `i` of module `m`, which is kept for the node;
    /// for a node without a type, the poison type is kept.
    pub open spec fn ty_node(self, names: Names, m: ModuleID, i: NodeIdx, st: TypeState) -> Typed
        decreases self.untyped(st.types), i + 1, 5int, 0nat,
    {
        let (r, s) = self.ty_inner(names, m, i, st);
        let r = match r {
            Some(t) => if t.0 == TypeModel::Poison {
                None
            } else {
                Some(t)
            },
            None => None,
        };
        (
            r,
            s.set(
                GlobalIdx(m, i),
                match r {
                    Some(t) => t,
                    None => plain(TypeModel::Poison),
                },
            ),
        )
    }

    /// The type of the node `c`, to which the node `i` refers.
    pub open spec fn ty_child(self, names: Names, m: ModuleID, c: NodeIdx, i: NodeIdx, bound: nat, st: TypeState) -> Typed
        decreases bound, i + 1, 1int, 0nat,
    {
        if c < i && self.untyped(st.types) <= bound {
            self.ty_node(names, m, c, st)
        } else {
            (None, st)
        }
    }

    /// Resolves the nodes `ids`, to which the node `i` refers, in order,
    /// for the diagnostics alone.
    pub open spec fn ty_all(self, names: Names, m: ModuleID, ids: Seq<NodeIdx>, i: NodeIdx, bound: nat, st: TypeState) -> TypeState
        decreases bound, i + 1, 2int, ids.len(),
    {
        if ids.len() == 0 {
            st
        } else {
            self.ty_child(
                names,
                m,
                ids.last(),
                i,
                bound,
                self.ty_all(names, m, ids.drop_last(), i, bound, st),
            ).1
        }
    }

    /// The type of a block with the statements `ids`: that of the last
    /// statement, the unit type for an empty block.
    pub open spec fn ty_block(self, names: Names, m: ModuleID, ids: Seq<NodeIdx>, i: NodeIdx, bound: nat, st: TypeState) -> Typed
        decreases bound, i + 1, 2int, ids.len(),
    {
        if ids.len() == 0 {
            (Some(plain(TypeModel::Unit)), st)
        } else {
            self.ty_child(
                names,
                m,
                ids.last(),
                i,
                bound,
                self.ty_block(names, m, ids.drop_last(), i, bound, st).1,
            )
        }
    }

    /// The fields of a struct type, each with its type; none as soon as a
    /// field has no type, and the fields after it are not looked at.
    pub open spec fn ty_fields(
        self,
        names: Names,
        m: ModuleID,
        fields: Seq<TypedIdent>,
        i: NodeIdx,
        bound: nat,
        st: TypeState,
    ) -> (Option<Seq<(Seq<char>, TypeModel)>>, TypeState)
        decreases bound, i + 1, 2int, fields.len(),
    {
        if fields.len() == 0 {
            (Some(Seq::empty()), st)
        } else {
            let (before, s) = self.ty_fields(names, m, fields.drop_last(), i, bound, st);
            match before {
                None => (None, s),
                Some(before) => {
                    let (t, s) = self.ty_child(names, m, fields.last().ty, i, bound, s);
                    match t {
                        Some(t) => (Some(before.push((fields.last().ident@, t.0))), s),
                        None => (None, s),
                    }
                },
            }
        }
    }

    /// Checks the arguments `args` of the call `i` against the parameters
    /// `params`. An argument for which there is a parameter must be of its
    /// type; for the operator `!` it must be a condition. The arguments
    /// beyond the parameters are resolved, with one diagnostic for all of
    /// them.
    pub open spec fn ty_args(
        self,
        names: Names,
        m: ModuleID,
        args: Seq<NodeIdx>,
        params: Seq<TypeModel>,
        is_not: bool,
        i: NodeIdx,
        bound: nat,
        st: TypeState,
    ) -> TypeState
        decreases bound, i + 1, 2int, args.len(),
    {
        if args.len() == 0 {
            st
        } else {
            let k = args.len() - 1;
            let s = self.ty_args(names, m, args.drop_last(), params, is_not, i, bound, st);
            let g = GlobalIdx(m, args.last());
            let (t, s) = self.ty_child(names, m, args.last(), i, bound, s);
            if k < params.len() {
                match t {
                    Some(t) => if is_not {
                        self.check_truthy(t, g, s)
                    } else {
                        self.check_eq(t, params[k], g, s)
                    },
                    None => s,
                }
            } else if k == params.len() {
                s.report(
                    self.type_error(
                        ErrorCode::TooManyArguments,
                        GlobalIdx(m, i),
                        GlobalIdx(m, i),
                        None,
                        NoteModel::Takes(params.len() as usize),
                    ),
                )
            } else {
                s
            }
        }
    }

    /// The type of the node `i` of module `m`, before it is kept.
    pub open spec fn ty_inner(self, names: Names, m: ModuleID, i: NodeIdx, st: TypeState) -> Typed
        decreases self.untyped(st.types), i + 1, 4int, 0nat,
    {
        let g = GlobalIdx(m, i);
        let bound = self.untyped(st.types);
        if !self.has(g) {
            (None, st)
        } else {
            match self.node(g) {
                Node::System(system) => (
                    Some(plain(TypeModel::Poison)),
                    self.ty_child(names, m, system.block, i, bound, st).1,
                ),
                Node::Resource(f) | Node::Component(f) => {
                    let (t, s) = self.ty_child(names, m, f.ty, i, bound, st);
                    match t {
                        Some(t) => (Some((t.0, true)), s),
                        None => (None, s),
                    }
                },
                Node::TypeIdent(_) => if names.contains_key(g) {
                    self.ty_resolve(names, names[g].0, bound, st)
                } else {
                    (None, st)
                },
                Node::Struct(s) => {
                    let (fields, s) = self.ty_fields(names, m, s.0@, i, bound, st);
                    match fields {
                        Some(fields) => (Some(plain(TypeModel::Struct { fields })), s),
                        None => (None, s),
                    }
                },
                Node::BuiltinType { ty, .. } | Node::BuiltinFunction { ty, .. } => (Some(ty@), st),
                Node::Expr(e) => self.ty_expr(names, m, i, e, st),
                Node::Import(_) => (Some(plain(TypeModel::Poison)), st),
            }
        }
    }

    /// The type of the expression `e`, which is the node `i` of module `m`.
    ///
    /// - A number is of the numeric type; a name is of the type of what it
    ///   stands for.
    /// - A call is of the result type of the function, which must be one.
    /// - A member access is of the type of the field, on a struct that has
    ///   it; a field that the struct lacks gets a diagnostic and the unit
    ///   type.
    /// - An access to a component or resource is of its type, which must
    ///   come from the store; the entity must be one.
    /// - An assignment, a `let`, a `del`, an `if`, a `while` and a query
    ///   are of the unit type. What is assigned must be of the type of the
    ///   target; a `let` of a plain name gives the name the type of the
    ///   value.
    pub open spec fn ty_expr(self, names: Names, m: ModuleID, i: NodeIdx, e: Expr, st: TypeState) -> Typed
        decreases self.untyped(st.types), i + 1, 3int, 0nat,
    {
        let g = GlobalIdx(m, i);
        let bound = self.untyped(st.types);
        let unit = Some(plain(TypeModel::Unit));
        let poison = Some(plain(TypeModel::Poison));
        match e {
            Expr::Block(ids) => self.ty_block(names, m, ids@, i, bound, st),
            Expr::Identifier(_) => if names.contains_key(g) {
                self.ty_resolve(names, names[g].0, bound, st)
            } else {
                (None, st)
            },
            Expr::Number(_) => (Some(plain(TypeModel::F32)), st),
            Expr::FunctionCall { function, args } => {
                let f = GlobalIdx(m, function);
                let is_not = self.has(f) && self.node(f) matches Node::Expr(
                    Expr::Identifier(Identifier::Operator(Operator::Not)),
                );
                let (ft, s) = self.ty_resolve(names, f, bound, st);
                match ft {
                    None => (None, s),
                    Some(ft) => match ft.0 {
                        TypeModel::Function { params, ret } => {
                            let s = self.ty_args(names, m, args@, params, is_not, i, bound, s);
                            (
                                Some(plain(*ret)),
                                if args@.len() < params.len() {
                                    s.report(
                                        self.type_error(
                                            ErrorCode::TooFewArguments,
                                            g,
                                            g,
                                            None,
                                            NoteModel::Takes(params.len() as usize),
                                        ),
                                    )
                                } else {
                                    s
                                },
                            )
                        },
                        other => (
                            poison,
                            s.report(
                                self.type_error(
                                    ErrorCode::CallRequiresFunction,
                                    g,
                                    f,
                                    None,
                                    NoteModel::InsteadType(other),
                                ),
                            ),
                        ),
                    },
                }
            },
            Expr::Query { block, .. } => (
                unit,
                self.ty_child(names, m, block, i, bound, st.set(g, plain(TypeModel::Entity))).1,
            ),
            Expr::Poison => (poison, st),
            Expr::ComponentAccess { entity, component } => {
                let (et, s) = self.ty_child(names, m, entity, i, bound, st);
                match et {
                    None => (None, s),
                    Some(et) => {
                        let s = self.check_eq(et, TypeModel::Entity, GlobalIdx(m, entity), s);
                        let (ct, s) = self.ty_child(names, m, component, i, bound, s);
                        match ct {
                            None => (None, s),
                            Some(ct) => (
                                Some(ct),
                                self.check_from_ecs(ct, GlobalIdx(m, component), s),
                            ),
                        }
                    },
                }
            },
            Expr::ResourceAccess { resource } => {
                let (t, s) = self.ty_child(names, m, resource, i, bound, st);
                match t {
                    None => (None, s),
                    Some(t) => (Some(t), self.check_from_ecs(t, GlobalIdx(m, resource), s)),
                }
            },
            Expr::MemberAccess { base, member } => {
                let mg = GlobalIdx(m, member);
                if self.has(mg) && self.node(mg) matches Node::Expr(
                    Expr::Identifier(Identifier::Name(name)),
                ) {
                    let name = self.node(mg)->Expr_0->Identifier_0->Name_0;
                    let (bt, s) = self.ty_child(names, m, base, i, bound, st);
                    match bt {
                        None => (None, s),
                        Some(bt) => match bt.0 {
                            TypeModel::Struct { fields } => match field_type(fields, name@) {
                                Some(t) => (Some(plain(t)), s),
                                None => (
                                    unit,
                                    s.report(
                                        self.type_error(
                                            ErrorCode::UnknownField,
                                            g,
                                            mg,
                                            None,
                                            NoteModel::Absent,
                                        ),
                                    ),
                                ),
                            },
                            other => (
                                poison,
                                s.report(
                                    self.type_error(
                                        ErrorCode::NotAStruct,
                                        g,
                                        mg,
                                        None,
                                        NoteModel::InsteadType(other),
                                    ),
                                ),
                            ),
                        },
                    }
                } else {
                    (
                        poison,
                        st.report(
                            self.type_error(
                                ErrorCode::MemberNotName,
                                g,
                                mg,
                                None,
                                NoteModel::Absent,
                            ),
                        ),
                    )
                }
            },
            Expr::Assign { lvalue, expr } => {
                let (lt, s) = self.ty_child(names, m, lvalue, i, bound, st);
                match lt {
                    None => (None, s),
                    Some(lt) => {
                        let (et, s) = self.ty_child(names, m, expr, i, bound, s);
                        match et {
                            None => (None, s),
                            Some(et) => (unit, self.check_eq(et, lt.0, GlobalIdx(m, expr), s)),
                        }
                    },
                }
            },
            Expr::Let { lvalue, expr } => {
                let (et, s) = self.ty_child(names, m, expr, i, bound, st);
                let lg = GlobalIdx(m, lvalue);
                match et {
                    None => (None, s),
                    Some(et) => if self.has(lg) && self.node(lg) matches Node::Expr(
                        Expr::Identifier(_),
                    ) {
                        (unit, s.set(lg, et))
                    } else {
                        let (lt, s) = self.ty_child(names, m, lvalue, i, bound, s);
                        match lt {
                            None => (None, s),
                            Some(lt) => (
                                unit,
                                self.check_eq(
                                    et,
                                    lt.0,
                                    GlobalIdx(m, expr),
                                    self.check_from_ecs(lt, lg, s),
                                ),
                            ),
                        }
                    },
                }
            },
            Expr::Del { expr } => {
                let (t, s) = self.ty_child(names, m, expr, i, bound, st);
                match t {
                    None => (None, s),
                    Some(t) => (unit, self.check_from_ecs(t, GlobalIdx(m, expr), s)),
                }
            },
            Expr::If { cond, expr, otherwise } => {
                let (ct, s) = self.ty_child(names, m, cond, i, bound, st);
                match ct {
                    None => (None, s),
                    Some(ct) => {
                        let s = self.check_truthy(ct, GlobalIdx(m, cond), s);
                        let s = self.ty_child(names, m, expr, i, bound, s).1;
                        (
                            unit,
                            match otherwise {
                                Some(otherwise) => self.ty_child(
                                    names,
                                    m,
                                    otherwise,
                                    i,
                                    bound,
                                    s,
                                ).1,
                                None => s,
                            },
                        )
                    },
                }
            },
            Expr::While { cond, expr } => {
                let (ct, s) = self.ty_child(names, m, cond, i, bound, st);
                match ct {
                    None => (None, s),
                    Some(ct) => {
                        let s = self.check_truthy(ct, GlobalIdx(m, cond), s);
                        (unit, self.ty_child(names, m, expr, i, bound, s).1)
                    },
                }
            },
            Expr::Struct { fields, .. } => {
                let s = self.ty_all(names, m, field_ids(fields@), i, bound, st);
                if names.contains_key(g) && self.untyped(s.types) <= bound {
                    self.ty_resolve(names, names[g].0, bound, s)
                } else {
                    (None, s)
                }
            },
        }
    }

    /// Resolves the types of the nodes `ids` of module `m`, in order.
    pub open spec fn ty_items(self, names: Names, m: ModuleID, ids: Seq<NodeIdx>, st: TypeState) -> TypeState
        decreases ids.len(),
    {
        if ids.len() == 0 {
            st
        } else {
            self.ty_node(names, m, ids.last(), self.ty_items(names, m, ids.drop_last(), st)).1
        }
    }
}


impl World {
    /// What keeping a type for `g` does to the count for module `m`: it
    /// goes down by one if `g` is a node counted whose type was not kept,
    /// and stays as it is otherwise.
    pub proof fn lemma_untyped_in(self, types: TypeModelMap, g: GlobalIdx, t: Ty, m: int, n: nat)
        requires
            0 <= m <= usize::MAX,
            n <= u32::MAX,
        ensures
            self.untyped_in(types.insert(g, t), m, n) + (if g.0 == m && g.1 < n
                && !types.contains_key(g) {
                1nat
            } else {
                0nat
            }) == self.untyped_in(types, m, n),
        decreases n,
    {
        if n > 0 {
            self.lemma_untyped_in(types, g, t, m, (n - 1) as nat);
            let h = GlobalIdx(m as usize, (n - 1) as u32);
            assert(h == g <==> (g.0 == m && g.1 == n - 1));
        }
    }

    /// The same for the first `k` modules.
    pub proof fn lemma_untyped_upto(self, types: TypeModelMap, g: GlobalIdx, t: Ty, k: nat)
        requires
            self.wf(),
            k <= self.modules.len() <= usize::MAX,
        ensures
            self.untyped_upto(types.insert(g, t), k) + (if g.0 < k && self.has(g)
                && !types.contains_key(g) {
                1nat
            } else {
                0nat
            }) == self.untyped_upto(types, k),
        decreases k,
    {
        if k > 0 {
            self.lemma_untyped_upto(types, g, t, (k - 1) as nat);
            assert(self.modules[k - 1].nodes.len() <= u32::MAX);
            self.lemma_untyped_in(types, g, t, k - 1, self.modules[k - 1].nodes.len());
        }
    }

    /// To keep a type never raises the number of nodes without one, and
    /// lowers it for a node that had none.
    pub proof fn lemma_untyped_insert(self, types: TypeModelMap, g: GlobalIdx, t: Ty)
        requires
            self.wf(),
            self.modules.len() <= usize::MAX,
        ensures
            self.untyped(types.insert(g, t)) <= self.untyped(types),
            self.has(g) && !types.contains_key(g) ==> self.untyped(types.insert(g, t))
                < self.untyped(types),
    {
        self.lemma_untyped_upto(types, g, t, self.modules.len());
    }
}


/// A definition whose type is asked for while it is being worked out
/// refers to itself. It has no type for what asked: it gets the diagnostic
/// of a recursive type, the poison type is kept for it, and nothing is
/// resolved on its account again.
pub proof fn lemma_cycle_is_reported(w: World, names: Names, g: GlobalIdx, bound: nat, st: TypeState)
    requires
        st.types.contains_key(g),
        st.types[g].0 == TypeModel::Recursion,
    ensures
        w.ty_resolve(names, g, bound, st).0.is_none(),
        w.ty_resolve(names, g, bound, st).1.types == st.types.insert(g, plain(TypeModel::Poison)),
        w.ty_resolve(names, g, bound, st).1.errors == st.errors.push(
            w.type_error(ErrorCode::RecursiveType, g, g, None, NoteModel::Absent),
        ),
{
}

/// A definition that has the poison type has no type for what refers to
/// it, and gets no further diagnostic: one error, one diagnostic.
pub proof fn lemma_poison_is_silent(w: World, names: Names, g: GlobalIdx, bound: nat, st: TypeState)
    requires
        st.types.contains_key(g),
        st.types[g].0 == TypeModel::Poison,
    ensures
        w.ty_resolve(names, g, bound, st) == (None::<Ty>, st),
{
}

} // verus!

//! The type resolution pass.

use crate::cache::{values_of, Cache, NameMap, TypeMap};
use crate::effects::Names;
use crate::hir::{Expr, GlobalIdx, Identifier, NodeIdx, Node, Operator, TypedIdent};
use crate::module_index::{ModuleCollection, World};
use crate::names::field_ids;
use crate::report::{
    reports_model, ErrorCode, ModuleID, Note, NoteModel, Report, ReportKind, ReportModel,
};
use crate::resolved_type::{
    fields_model, lemma_function_model, lemma_struct_model, types_model, InnerResolvedType,
    ResolvedType, TypeModel,
};
use crate::types::{field_type, plain, Ty, TypeModelMap, TypeState, Typed};
use vstd::prelude::*;

verus! {

/// The model of a type that there may be.
pub open spec fn ty_model(t: Option<ResolvedType>) -> Option<Ty> {
    match t {
        Some(t) => Some(t@),
        None => None,
    }
}

/// The model of the types kept.
pub open spec fn kept_model(map: Map<GlobalIdx, ResolvedType>) -> TypeModelMap {
    Map::new(|g: GlobalIdx| map.contains_key(g), |g: GlobalIdx| map[g]@)
}

/// Those of the diagnostics `rs` that are for module `m`, in order.
pub open spec fn reports_for(rs: Seq<ReportModel>, m: ModuleID) -> Seq<ReportModel>
    decreases rs.len(),
{
    if rs.len() == 0 {
        Seq::empty()
    } else if rs.last().module == m {
        reports_for(rs.drop_last(), m).push(rs.last())
    } else {
        reports_for(rs.drop_last(), m)
    }
}

struct ResolveCtx<'c> {
    modules: &'c ModuleCollection,
    names: &'c NameMap,
    errors: Vec<Report>,
    types: TypeMap,
}

impl<'c> View for ResolveCtx<'c> {
    type V = TypeState;

    closed spec fn view(&self) -> TypeState {
        TypeState { types: kept_model(self.types@), errors: reports_model(self.errors@) }
    }
}

impl<'c> ResolveCtx<'c> {
    spec fn world(&self) -> World {
        self.modules@
    }

    spec fn wf(&self) -> bool {
        self.world().wf() && self.world().modules.len() <= usize::MAX
    }

    /// The number of nodes of which no type is kept.
    spec fn untyped(&self) -> nat {
        self.world().untyped(self@.types)
    }

    /// What holds after a step that began in `old`: the pass is about the
    /// same modules and names, and no type was dropped.
    spec fn follows(&self, old: &Self) -> bool {
        &&& self.modules == old.modules
        &&& self.names == old.names
        &&& self.wf()
        &&& self.untyped() <= old.untyped()
    }

    /// Whether `r` with the state now is what `t` says.
    spec fn yields(&self, r: Option<ResolvedType>, t: Typed) -> bool {
        ty_model(r) == t.0 && self@ == t.1
    }

    fn set(&mut self, g: GlobalIdx, t: ResolvedType)
        requires
            old(self).wf(),
        ensures
            final(self)@ == old(self)@.set(g, t@),
            final(self).follows(old(self)),
            old(self).world().has(g) && !old(self)@.types.contains_key(g) ==> final(self).untyped()
                < old(self).untyped(),
    {
        proof {
            self.world().lemma_untyped_insert(self@.types, g, t@);
        }
        self.types.set(g, t);
        assert(final(self)@.types =~= old(self)@.types.insert(g, t@));
    }

    fn report(&mut self, r: Report)
        requires
            old(self).wf(),
        ensures
            final(self)@ == old(self)@.report(r@),
            final(self).follows(old(self)),
    {
        self.errors.push(r);
        assert(reports_model(final(self).errors@) =~= reports_model(old(self).errors@).push(r@));
    }

    fn error(
        &self,
        code: ErrorCode,
        at: GlobalIdx,
        label: GlobalIdx,
        wanted: Option<InnerResolvedType>,
        note: Note,
    ) -> (r: Report)
        ensures
            r@ == self.world().type_error(
                code,
                at,
                label,
                match wanted {
                    Some(t) => Some(t@),
                    None => None,
                },
                note@,
            ),
    {
        Report {
            kind: ReportKind::Error,
            code,
            module: at.module(),
            offset: self.modules.span(at).0,
            label: Some(self.modules.span(label)),
            expected: None,
            wanted,
            note,
        }
    }

    fn check_truthy(&mut self, t: &ResolvedType, g: GlobalIdx)
        requires
            old(self).wf(),
        ensures
            final(self)@ == old(self).world().check_truthy(t@, g, old(self)@),
            final(self).follows(old(self)),
    {
        let is_bool = match t.inner {
            InnerResolvedType::Bool => true,
            _ => false,
        };
        if !is_bool && !t.component_or_resource {
            let r = self.error(ErrorCode::ExpectedTruthy, g, g, None, Note::Found(t.inner.clone()));
            self.report(r);
        }
    }

    fn check_eq(&mut self, a: &ResolvedType, b: &InnerResolvedType, g: GlobalIdx)
        requires
            old(self).wf(),
        ensures
            final(self)@ == old(self).world().check_eq(a@, b@, g, old(self)@),
            final(self).follows(old(self)),
    {
        if !a.inner.same(b) {
            let r = self.error(
                ErrorCode::TypeMismatch,
                g,
                g,
                Some(b.clone()),
                Note::Found(a.inner.clone()),
            );
            self.report(r);
        }
    }

    fn check_from_ecs(&mut self, t: &ResolvedType, g: GlobalIdx)
        requires
            old(self).wf(),
        ensures
            final(self)@ == old(self).world().check_from_ecs(t@, g, old(self)@),
            final(self).follows(old(self)),
    {
        if !t.component_or_resource {
            let r = self.error(ErrorCode::NotFromStore, g, g, None, Note::Absent);
            self.report(r);
        }
    }

    fn resolve(&mut self, g: GlobalIdx, Ghost(bound): Ghost<nat>) -> (r: Option<ResolvedType>)
        requires
            old(self).wf(),
            old(self).untyped() <= bound,
        ensures
            final(self).follows(old(self)),
            final(self).yields(
                r,
                old(self).world().ty_resolve(old(self).names@, g, bound, old(self)@),
            ),
        decreases bound, 0nat, 0int, 0nat,
    {
        let modules = self.modules;
        let kept = match self.types.get_ref(g) {
            Some(t) => Some(t.clone()),
            None => None,
        };
        match kept {
            Some(t) => {
                if t.inner.is_recursion() {
                    self.set(g, ResolvedType::poison());
                    let r = self.error(ErrorCode::RecursiveType, g, g, None, Note::Absent);
                    self.report(r);
                    None
                } else if t.inner.is_poison() {
                    None
                } else {
                    Some(t)
                }
            },
            None => {
                if !(g.module() < modules.len() && (g.idx() as usize) < modules.get_ref(
                    g.module(),
                ).len()) {
                    return None;
                }
                self.set(g, ResolvedType::from_inner(InnerResolvedType::Recursion));
                self.node(g.module(), g.idx())
            },
        }
    }

    fn child(&mut self, m: ModuleID, c: NodeIdx, i: NodeIdx, Ghost(bound): Ghost<nat>) -> (r: Option<
        ResolvedType,
    >)
        requires
            old(self).wf(),
            old(self).world().has(GlobalIdx(m, i)),
            old(self).untyped() <= bound,
        ensures
            final(self).follows(old(self)),
            final(self).yields(
                r,
                old(self).world().ty_child(old(self).names@, m, c, i, bound, old(self)@),
            ),
        decreases bound, i + 1, 1int, 0nat,
    {
        if c < i {
            self.node(m, c)
        } else {
            None
        }
    }

    fn all(&mut self, m: ModuleID, ids: &Vec<NodeIdx>, i: NodeIdx, Ghost(bound): Ghost<nat>)
        requires
            old(self).wf(),
            old(self).world().has(GlobalIdx(m, i)),
            old(self).untyped() <= bound,
        ensures
            final(self).follows(old(self)),
            final(self)@ == old(self).world().ty_all(
                old(self).names@,
                m,
                ids@,
                i,
                bound,
                old(self)@,
            ),
        decreases bound, i + 1, 2int, ids@.len(),
    {
        let ghost w = self.world();
        let ghost names = self.names@;
        let ghost start = self@;
        let mut k: usize = 0;
        assert(ids@.subrange(0, 0) =~= Seq::<NodeIdx>::empty());
        while k < ids.len()
            invariant
                k <= ids@.len(),
                self.follows(old(self)),
                w == self.world(),
                names == self.names@,
                w.has(GlobalIdx(m, i)),
                old(self).untyped() <= bound,
                self@ == w.ty_all(names, m, ids@.subrange(0, k as int), i, bound, start),
            decreases ids@.len() - k,
        {
            proof {
                assert(ids@.subrange(0, k + 1).drop_last() =~= ids@.subrange(0, k as int));
                assert(ids@.subrange(0, k + 1).last() == ids@[k as int]);
            }
            self.child(m, ids[k], i, Ghost(bound));
            k = k + 1;
        }
        assert(ids@.subrange(0, ids@.len() as int) =~= ids@);
    }

    fn block(&mut self, m: ModuleID, ids: &Vec<NodeIdx>, i: NodeIdx, Ghost(bound): Ghost<nat>) -> (r: Option<
        ResolvedType,
    >)
        requires
            old(self).wf(),
            old(self).world().has(GlobalIdx(m, i)),
            old(self).untyped() <= bound,
        ensures
            final(self).follows(old(self)),
            final(self).yields(
                r,
                old(self).world().ty_block(old(self).names@, m, ids@, i, bound, old(self)@),
            ),
        decreases bound, i + 1, 2int, ids@.len(),
    {
        let ghost w = self.world();
        let ghost names = self.names@;
        let ghost start = self@;
        let mut ty = Some(ResolvedType::from_inner(InnerResolvedType::Unit));
        let mut k: usize = 0;
        assert(ids@.subrange(0, 0) =~= Seq::<NodeIdx>::empty());
        while k < ids.len()
            invariant
                k <= ids@.len(),
                self.follows(old(self)),
                w == self.world(),
                names == self.names@,
                w.has(GlobalIdx(m, i)),
                old(self).untyped() <= bound,
                self.yields(ty, w.ty_block(names, m, ids@.subrange(0, k as int), i, bound, start)),
            decreases ids@.len() - k,
        {
            proof {
                assert(ids@.subrange(0, k + 1).drop_last() =~= ids@.subrange(0, k as int));
                assert(ids@.subrange(0, k + 1).last() == ids@[k as int]);
            }
            ty = self.child(m, ids[k], i, Ghost(bound));
            k = k + 1;
        }
        assert(ids@.subrange(0, ids@.len() as int) =~= ids@);
        ty
    }

    fn fields(&mut self, m: ModuleID, fields: &Vec<TypedIdent>, i: NodeIdx, Ghost(bound): Ghost<nat>) -> (r:
        Option<Vec<(String, InnerResolvedType)>>)
        requires
            old(self).wf(),
            old(self).world().has(GlobalIdx(m, i)),
            old(self).untyped() <= bound,
        ensures
            final(self).follows(old(self)),
            ({
                let (fs, s) = old(self).world().ty_fields(
                    old(self).names@,
                    m,
                    fields@,
                    i,
                    bound,
                    old(self)@,
                );
                &&& final(self)@ == s
                &&& match r {
                    Some(r) => fs == Some(fields_model(r@)),
                    None => fs.is_none(),
                }
            }),
        decreases bound, i + 1, 2int, fields@.len(),
    {
        let ghost w = self.world();
        let ghost names = self.names@;
        let ghost start = self@;
        let mut out: Vec<(String, InnerResolvedType)> = Vec::new();
        let mut k: usize = 0;
        assert(fields@.subrange(0, 0) =~= Seq::<TypedIdent>::empty());
        assert(fields_model(out@) =~= Seq::<(Seq<char>, TypeModel)>::empty());
        while k < fields.len()
            invariant
                k <= fields@.len(),
                self.follows(old(self)),
                w == self.world(),
                names == self.names@,
                w.has(GlobalIdx(m, i)),
                old(self).untyped() <= bound,
                start == old(self)@,
                w.ty_fields(names, m, fields@.subrange(0, k as int), i, bound, start) == (
                    Some(fields_model(out@)),
                    self@,
                ),
            decreases fields@.len() - k,
        {
            proof {
                assert(fields@.subrange(0, k + 1).drop_last() =~= fields@.subrange(0, k as int));
                assert(fields@.subrange(0, k + 1).last() == fields@[k as int]);
            }
            match self.child(m, fields[k].ty, i, Ghost(bound)) {
                Some(t) => {
                    let name = fields[k].ident.clone();
                    proof {
                        assert(fields_model(out@.push((name, t.inner))) =~= fields_model(out@).push(
                            (name@, t.inner@),
                        ));
                    }
                    out.push((name, t.inner));
                },
                None => {
                    proof {
                        lemma_fields_stop(w, names, m, fields@, k as int + 1, i, bound, start);
                    }
                    return None;
                },
            }
            k = k + 1;
        }
        assert(fields@.subrange(0, fields@.len() as int) =~= fields@);
        Some(out)
    }

    fn args(
        &mut self,
        m: ModuleID,
        args: &Vec<NodeIdx>,
        params: &Vec<InnerResolvedType>,
        is_not: bool,
        i: NodeIdx,
        Ghost(bound): Ghost<nat>,
    )
        requires
            old(self).wf(),
            old(self).world().has(GlobalIdx(m, i)),
            old(self).untyped() <= bound,
        ensures
            final(self).follows(old(self)),
            final(self)@ == old(self).world().ty_args(
                old(self).names@,
                m,
                args@,
                types_model(params@),
                is_not,
                i,
                bound,
                old(self)@,
            ),
        decreases bound, i + 1, 2int, args@.len(),
    {
        let ghost w = self.world();
        let ghost names = self.names@;
        let ghost start = self@;
        let ghost ps = types_model(params@);
        let mut k: usize = 0;
        assert(args@.subrange(0, 0) =~= Seq::<NodeIdx>::empty());
        while k < args.len()
            invariant
                k <= args@.len(),
                self.follows(old(self)),
                w == self.world(),
                names == self.names@,
                ps == types_model(params@),
                w.has(GlobalIdx(m, i)),
                old(self).untyped() <= bound,
                self@ == w.ty_args(
                    names,
                    m,
                    args@.subrange(0, k as int),
                    ps,
                    is_not,
                    i,
                    bound,
                    start,
                ),
            decreases args@.len() - k,
        {
            proof {
                assert(args@.subrange(0, k + 1).drop_last() =~= args@.subrange(0, k as int));
                assert(args@.subrange(0, k + 1).last() == args@[k as int]);
            }
            let g = GlobalIdx(m, args[k]);
            let t = self.child(m, args[k], i, Ghost(bound));
            if k < params.len() {
                match t {
                    Some(t) => {
                        if is_not {
                            self.check_truthy(&t, g);
                        } else {
                            self.check_eq(&t, &params[k], g);
                        }
                    },
                    None => {},
                }
            } else if k == params.len() {
                let r = self.error(
                    ErrorCode::TooManyArguments,
                    GlobalIdx(m, i),
                    GlobalIdx(m, i),
                    None,
                    Note::Takes(params.len()),
                );
                self.report(r);
            }
            k = k + 1;
        }
        assert(args@.subrange(0, args@.len() as int) =~= args@);
    }

    fn node(&mut self, m: ModuleID, i: NodeIdx) -> (r: Option<ResolvedType>)
        requires
            old(self).wf(),
            old(self).world().has(GlobalIdx(m, i)),
        ensures
            final(self).follows(old(self)),
            final(self).yields(
                r,
                old(self).world().ty_node(old(self).names@, m, i, old(self)@),
            ),
        decreases old(self).untyped(), i + 1, 5int, 0nat,
    {
        let r = self.inner(m, i);
        let r = match r {
            Some(t) => if t.inner.is_poison() {
                None
            } else {
                Some(t)
            },
            None => None,
        };
        let kept = match &r {
            Some(t) => t.clone(),
            None => ResolvedType::poison(),
        };
        self.set(GlobalIdx(m, i), kept);
        r
    }

    fn inner(&mut self, m: ModuleID, i: NodeIdx) -> (r: Option<ResolvedType>)
        requires
            old(self).wf(),
            old(self).world().has(GlobalIdx(m, i)),
        ensures
            final(self).follows(old(self)),
            final(self).yields(
                r,
                old(self).world().ty_inner(old(self).names@, m, i, old(self)@),
            ),
        decreases old(self).untyped(), i + 1, 4int, 0nat,
    {
        let g = GlobalIdx(m, i);
        let modules = self.modules;
        let names = self.names;
        let bound = Ghost(self.untyped());
        match modules.get_node(g) {
            Node::System(system) => {
                self.child(m, system.block, i, bound);
                Some(ResolvedType::poison())
            },
            Node::Resource(f) => match self.child(m, f.ty, i, bound) {
                Some(t) => Some(t.with_from_ecs()),
                None => None,
            },
            Node::Component(f) => match self.child(m, f.ty, i, bound) {
                Some(t) => Some(t.with_from_ecs()),
                None => None,
            },
            Node::TypeIdent(_) => match names.get(g) {
                Some(def) => self.resolve(def.definition(), bound),
                None => None,
            },
            Node::Struct(s) => match self.fields(m, &s.0, i, bound) {
                Some(fields) => {
                    proof {
                        lemma_struct_model(fields);
                    }
                    Some(ResolvedType::from_inner(InnerResolvedType::Struct { fields }))
                },
                None => None,
            },
            Node::BuiltinType { ty, .. } => Some(ty.clone()),
            Node::BuiltinFunction { ty, .. } => Some(ty.clone()),
            Node::Expr(e) => self.expr(m, i, e),
            Node::Import(_) => Some(ResolvedType::poison()),
        }
    }

    fn expr(&mut self, m: ModuleID, i: NodeIdx, e: &Expr) -> (r: Option<ResolvedType>)
        requires
            old(self).wf(),
            old(self).world().has(GlobalIdx(m, i)),
        ensures
            final(self).follows(old(self)),
            final(self).yields(
                r,
                old(self).world().ty_expr(old(self).names@, m, i, *e, old(self)@),
            ),
        decreases old(self).untyped(), i + 1, 3int, 0nat,
    {
        let g = GlobalIdx(m, i);
        let modules = self.modules;
        let names = self.names;
        let bound = Ghost(self.untyped());
        match e {
            Expr::Block(ids) => self.block(m, ids, i, bound),
            Expr::Identifier(_) => match names.get(g) {
                Some(def) => self.resolve(def.definition(), bound),
                None => None,
            },
            Expr::Number(_) => Some(ResolvedType::from_inner(InnerResolvedType::F32)),
            Expr::FunctionCall { function, args } => self.call(m, i, *function, args),
            Expr::Query { block, .. } => {
                self.set(g, ResolvedType::from_inner(InnerResolvedType::Entity));
                self.child(m, *block, i, bound);
                Some(ResolvedType::from_inner(InnerResolvedType::Unit))
            },
            Expr::Poison => Some(ResolvedType::poison()),
            Expr::ComponentAccess { entity, component } => {
                let et = match self.child(m, *entity, i, bound) {
                    Some(t) => t,
                    None => {
                        return None;
                    },
                };
                self.check_eq(&et, &InnerResolvedType::Entity, GlobalIdx(m, *entity));
                let ct = match self.child(m, *component, i, bound) {
                    Some(t) => t,
                    None => {
                        return None;
                    },
                };
                self.check_from_ecs(&ct, GlobalIdx(m, *component));
                Some(ct)
            },
            Expr::ResourceAccess { resource } => {
                let t = match self.child(m, *resource, i, bound) {
                    Some(t) => t,
                    None => {
                        return None;
                    },
                };
                self.check_from_ecs(&t, GlobalIdx(m, *resource));
                Some(t)
            },
            Expr::MemberAccess { base, member } => self.member(m, i, *base, *member),
            Expr::Assign { lvalue, expr } => {
                let lt = match self.child(m, *lvalue, i, bound) {
                    Some(t) => t,
                    None => {
                        return None;
                    },
                };
                let et = match self.child(m, *expr, i, bound) {
                    Some(t) => t,
                    None => {
                        return None;
                    },
                };
                self.check_eq(&et, &lt.inner, GlobalIdx(m, *expr));
                Some(ResolvedType::from_inner(InnerResolvedType::Unit))
            },
            Expr::Let { lvalue, expr } => {
                let et = match self.child(m, *expr, i, bound) {
                    Some(t) => t,
                    None => {
                        return None;
                    },
                };
                let lg = GlobalIdx(m, *lvalue);
                let is_name = match modules.get_ref(m).node(*lvalue) {
                    Some(Node::Expr(Expr::Identifier(_))) => true,
                    _ => false,
                };
                if is_name {
                    self.set(lg, et);
                } else {
                    let lt = match self.child(m, *lvalue, i, bound) {
                        Some(t) => t,
                        None => {
                            return None;
                        },
                    };
                    self.check_from_ecs(&lt, lg);
                    self.check_eq(&et, &lt.inner, GlobalIdx(m, *expr));
                }
                Some(ResolvedType::from_inner(InnerResolvedType::Unit))
            },
            Expr::Del { expr } => {
                let t = match self.child(m, *expr, i, bound) {
                    Some(t) => t,
                    None => {
                        return None;
                    },
                };
                self.check_from_ecs(&t, GlobalIdx(m, *expr));
                Some(ResolvedType::from_inner(InnerResolvedType::Unit))
            },
            Expr::If { cond, expr, otherwise } => {
                let ct = match self.child(m, *cond, i, bound) {
                    Some(t) => t,
                    None => {
                        return None;
                    },
                };
                self.check_truthy(&ct, GlobalIdx(m, *cond));
                self.child(m, *expr, i, bound);
                match otherwise {
                    Some(otherwise) => {
                        self.child(m, *otherwise, i, bound);
                    },
                    None => {},
                }
                Some(ResolvedType::from_inner(InnerResolvedType::Unit))
            },
            Expr::While { cond, expr } => {
                let ct = match self.child(m, *cond, i, bound) {
                    Some(t) => t,
                    None => {
                        return None;
                    },
                };
                self.check_truthy(&ct, GlobalIdx(m, *cond));
                self.child(m, *expr, i, bound);
                Some(ResolvedType::from_inner(InnerResolvedType::Unit))
            },
            Expr::Struct { fields, .. } => {
                let mut ids: Vec<NodeIdx> = Vec::new();
                let mut k: usize = 0;
                while k < fields.len()
                    invariant
                        k <= fields@.len(),
                        ids@ == field_ids(fields@).subrange(0, k as int),
                    decreases fields@.len() - k,
                {
                    ids.push(fields[k].1);
                    assert(ids@ =~= field_ids(fields@).subrange(0, k + 1));
                    k = k + 1;
                }
                assert(ids@ =~= field_ids(fields@));
                self.all(m, &ids, i, bound);
                match names.get(g) {
                    Some(def) => self.resolve(def.definition(), bound),
                    None => None,
                }
            },
        }
    }

    fn call(&mut self, m: ModuleID, i: NodeIdx, function: NodeIdx, args: &Vec<NodeIdx>) -> (r: Option<
        ResolvedType,
    >)
        requires
            old(self).wf(),
            old(self).world().has(GlobalIdx(m, i)),
        ensures
            final(self).follows(old(self)),
            final(self).yields(
                r,
                old(self).world().ty_expr(
                    old(self).names@,
                    m,
                    i,
                    Expr::FunctionCall { function, args: *args },
                    old(self)@,
                ),
            ),
        decreases old(self).untyped(), i + 1, 2int, args@.len() + 1,
    {
        let g = GlobalIdx(m, i);
        let f = GlobalIdx(m, function);
        let modules = self.modules;
        let bound = Ghost(self.untyped());
        let is_not = match modules.get_ref(m).node(function) {
            Some(Node::Expr(Expr::Identifier(Identifier::Operator(Operator::Not)))) => true,
            _ => false,
        };
        let ft = match self.resolve(f, bound) {
            Some(t) => t,
            None => {
                return None;
            },
        };
        match ft.inner {
            InnerResolvedType::Function { params, ret } => {
                proof {
                    lemma_function_model(params, ret);
                }
                self.args(m, args, &params, is_not, i, bound);
                if args.len() < params.len() {
                    let r = self.error(
                        ErrorCode::TooFewArguments,
                        g,
                        g,
                        None,
                        Note::Takes(params.len()),
                    );
                    self.report(r);
                }
                Some(ResolvedType::from_inner(*ret))
            },
            other => {
                let r = self.error(
                    ErrorCode::CallRequiresFunction,
                    g,
                    f,
                    None,
                    Note::InsteadType(other),
                );
                self.report(r);
                Some(ResolvedType::poison())
            },
        }
    }

    fn member(&mut self, m: ModuleID, i: NodeIdx, base: NodeIdx, member: NodeIdx) -> (r: Option<ResolvedType>)
        requires
            old(self).wf(),
            old(self).world().has(GlobalIdx(m, i)),
        ensures
            final(self).follows(old(self)),
            final(self).yields(
                r,
                old(self).world().ty_expr(
                    old(self).names@,
                    m,
                    i,
                    Expr::MemberAccess { base, member },
                    old(self)@,
                ),
            ),
        decreases old(self).untyped(), i + 1, 2int, 0nat,
    {
        let g = GlobalIdx(m, i);
        let mg = GlobalIdx(m, member);
        let modules = self.modules;
        let bound = Ghost(self.untyped());
        let name = match modules.get_ref(m).node(member) {
            Some(Node::Expr(Expr::Identifier(Identifier::Name(name)))) => name,
            _ => {
                let r = self.error(ErrorCode::MemberNotName, g, mg, None, Note::Absent);
                self.report(r);
                return Some(ResolvedType::poison());
            },
        };
        let bt = match self.child(m, base, i, bound) {
            Some(t) => t,
            None => {
                return None;
            },
        };
        match bt.inner {
            InnerResolvedType::Struct { fields } => {
                proof {
                    lemma_struct_model(fields);
                }
                match find_field(&fields, name) {
                    Some(t) => Some(ResolvedType::from_inner(t)),
                    None => {
                        let r = self.error(ErrorCode::UnknownField, g, mg, None, Note::Absent);
                        self.report(r);
                        Some(ResolvedType::from_inner(InnerResolvedType::Unit))
                    },
                }
            },
            other => {
                let r = self.error(ErrorCode::NotAStruct, g, mg, None, Note::InsteadType(other));
                self.report(r);
                Some(ResolvedType::poison())
            },
        }
    }
}

/// Resolves the types of module `module_id`: keeps a type for each node
/// that is reached from a top-level item or that such a node refers to by
/// name, and records the diagnostics, each for the module of the node that
/// it is about. The names must be resolved before.
pub fn run(cache: &mut Cache, modules: &ModuleCollection, module_id: ModuleID)
    requires
        module_id < modules@.modules.len(),
    ensures
        ({
            let s = modules@.ty_items(
                old(cache).names@,
                module_id,
                modules@.tops[module_id as int],
                TypeState { types: kept_model(old(cache).types@), errors: Seq::empty() },
            );
            &&& kept_model(final(cache).types@) == s.types
            &&& forall|m: ModuleID|
                reports_model(#[trigger] values_of(final(cache).errors@, m)) == reports_model(
                    values_of(old(cache).errors@, m),
                ) + reports_for(s.errors, m)
        }),
        final(cache).names == old(cache).names,
        final(cache).effects == old(cache).effects,
{
    let _ = modules.len();
    let ghost w = modules@;
    let ghost names = cache.names@;
    let mut types = TypeMap::new();
    std::mem::swap(&mut types, &mut cache.types);
    let mut ctx = ResolveCtx { modules, names: &cache.names, errors: Vec::new(), types };
    assert(reports_model(ctx.errors@) =~= Seq::<ReportModel>::empty());
    let ghost start = ctx@;
    let tops = modules.get_ref(module_id).top_level_ids();
    let mut k: usize = 0;
    assert(tops@.subrange(0, 0) =~= Seq::<NodeIdx>::empty());
    while k < tops.len()
        invariant
            k <= tops@.len(),
            ctx.wf(),
            ctx.modules == modules,
            ctx.names@ == names,
            w == modules@,
            module_id < w.modules.len(),
            tops@ == w.tops[module_id as int],
            ctx@ == w.ty_items(names, module_id, tops@.subrange(0, k as int), start),
        decreases tops@.len() - k,
    {
        proof {
            assert(tops@.subrange(0, k + 1).drop_last() =~= tops@.subrange(0, k as int));
            assert(tops@.subrange(0, k + 1).last() == tops@[k as int]);
        }
        ctx.node(module_id, tops[k]);
        k = k + 1;
    }
    assert(tops@.subrange(0, tops@.len() as int) =~= tops@);
    let ResolveCtx { errors, types, .. } = ctx;
    cache.types = types;
    let ghost before = cache.errors@;
    let ghost all = reports_model(errors@);
    let mut k: usize = 0;
    assert(all.subrange(0, 0) =~= Seq::<ReportModel>::empty());
    assert forall|m: ModuleID|
        reports_model(#[trigger] values_of(before, m)) == reports_model(values_of(before, m))
            + reports_for(all.subrange(0, 0), m) by {
        assert(reports_model(values_of(before, m)) + Seq::<ReportModel>::empty()
            =~= reports_model(values_of(before, m)));
    }
    while k < errors.len()
        invariant
            k <= errors@.len(),
            all == reports_model(errors@),
            cache.names == old(cache).names,
            cache.effects == old(cache).effects,
            cache.types@ == types@,
            forall|m: ModuleID|
                reports_model(#[trigger] values_of(cache.errors@, m)) == reports_model(
                    values_of(before, m),
                ) + reports_for(all.subrange(0, k as int), m),
        decreases errors@.len() - k,
    {
        let report = errors[k].clone();
        let target = report.module;
        let ghost prev = cache.errors@;
        cache.errors.push(target, report);
        proof {
            assert(all.subrange(0, k + 1).drop_last() =~= all.subrange(0, k as int));
            assert(all.subrange(0, k + 1).last() == all[k as int]);
            assert forall|m: ModuleID|
                reports_model(#[trigger] values_of(cache.errors@, m)) == reports_model(
                    values_of(before, m),
                ) + reports_for(all.subrange(0, k + 1), m) by {
                if m == target {
                    assert(reports_model(values_of(prev, m).push(report)) =~= reports_model(
                        values_of(prev, m),
                    ).push(report@));
                    assert(reports_model(values_of(prev, m)).push(report@) =~= reports_model(
                        values_of(before, m),
                    ) + reports_for(all.subrange(0, k as int), m).push(report@));
                } else {
                    assert(values_of(cache.errors@, m) == values_of(prev, m));
                }
            }
        }
        k = k + 1;
    }
    assert(all.subrange(0, all.len() as int) =~= all);
}

/// The type of the field `name` among `fields`.
fn find_field(fields: &Vec<(String, InnerResolvedType)>, name: &String) -> (r: Option<
    InnerResolvedType,
>)
    ensures
        match r {
            Some(t) => field_type(fields_model(fields@), name@) == Some(t@),
            None => field_type(fields_model(fields@), name@).is_none(),
        },
{
    let ghost all = fields_model(fields@);
    let mut k: usize = 0;
    assert(all.subrange(0, all.len() as int) =~= all);
    while k < fields.len()
        invariant
            k <= fields@.len(),
            all == fields_model(fields@),
            field_type(all, name@) == field_type(all.subrange(k as int, all.len() as int), name@),
        decreases fields@.len() - k,
    {
        proof {
            assert(all.subrange(k as int, all.len() as int).drop_first() =~= all.subrange(
                k + 1,
                all.len() as int,
            ));
            assert(all.subrange(k as int, all.len() as int)[0] == all[k as int]);
        }
        if fields[k].0 == *name {
            return Some(fields[k].1.clone());
        }
        k = k + 1;
    }
    None
}

/// Once a field has no type, the fields of the struct have none, whatever
/// follows.
proof fn lemma_fields_stop(
    w: World,
    names: Names,
    m: ModuleID,
    fields: Seq<TypedIdent>,
    k: int,
    i: NodeIdx,
    bound: nat,
    st: TypeState,
)
    requires
        0 <= k <= fields.len(),
        w.ty_fields(names, m, fields.subrange(0, k), i, bound, st).0.is_none(),
    ensures
        w.ty_fields(names, m, fields, i, bound, st) == w.ty_fields(
            names,
            m,
            fields.subrange(0, k),
            i,
            bound,
            st,
        ),
    decreases fields.len() - k,
{
    if k < fields.len() {
        assert(fields.subrange(0, k + 1).drop_last() =~= fields.subrange(0, k));
        lemma_fields_stop(w, names, m, fields, k + 1, i, bound, st);
    } else {
        assert(fields.subrange(0, k) =~= fields);
    }
}

} // verus!

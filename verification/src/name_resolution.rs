//! The name resolution pass.

use crate::cache::{Cache, NameMap, ResolvedDefinition};
use crate::hir::{Expr, GlobalIdx, IdentModel, Identifier, NodeIdx, Node};
use crate::module_index::{names_model, ModuleCollection, World};
use crate::name_scope::NameScope;
use crate::names::{field_ids, type_ids, NameState};
use crate::report::{ErrorCode, ModuleID, Note, Report, ReportKind};
use vstd::prelude::*;

verus! {

/// The diagnostic of kind `code` for the node at `g`.
pub fn error_at(modules: &ModuleCollection, code: ErrorCode, g: GlobalIdx) -> (r: Report)
    ensures
        r == modules@.error_at(code, g),
{
    let span = modules.span(g);
    Report {
        kind: ReportKind::Error,
        code,
        module: g.module(),
        offset: span.0,
        label: Some(span),
        expected: None,
        wanted: None,
        note: Note::Absent,
    }
}

struct ResolveCtx<'c> {
    modules: &'c ModuleCollection,
    module_id: ModuleID,
    errors: Vec<Report>,
    names: NameMap,
    scope: NameScope,
}

impl<'c> View for ResolveCtx<'c> {
    type V = NameState;

    closed spec fn view(&self) -> NameState {
        NameState { scopes: self.scope@, names: self.names@, errors: self.errors@ }
    }
}

impl<'c> ResolveCtx<'c> {
    spec fn world(&self) -> World {
        self.modules@
    }

    /// The pass works on a module of the collection.
    spec fn wf(&self) -> bool {
        self.world().wf() && self.module_id < self.world().modules.len()
    }

    /// The pass is still about the same module of the same collection.
    spec fn same(&self, old: &Self) -> bool {
        self.modules == old.modules && self.module_id == old.module_id
    }

    fn declare(&mut self, name: Identifier, def: GlobalIdx)
        ensures
            final(self)@ == old(self)@.declare(name@, def),
            final(self).same(old(self)),
    {
        if self.scope.depth() > 0 {
            self.scope.declare(name, ResolvedDefinition(def));
        }
    }

    fn bind(&mut self, g: GlobalIdx, name: &Identifier, code: ErrorCode)
        ensures
            final(self)@ == old(self).world().bind(old(self)@, g, name@, code),
            final(self).same(old(self)),
    {
        match self.scope.resolve(name) {
            Some(def) => {
                self.names.set(g, def);
            },
            None => {
                let report = error_at(self.modules, code, g);
                self.errors.push(report);
            },
        }
    }

    fn visit(&mut self, c: NodeIdx, i: NodeIdx)
        requires
            old(self).wf(),
            i < old(self).world().modules[old(self).module_id as int].nodes.len(),
        ensures
            final(self)@ == old(self).world().visit(old(self).module_id, c, i, old(self)@),
            final(self).same(old(self)),
        decreases i, 0int, 0nat,
    {
        if c < i {
            self.node(c);
        }
    }

    fn visit_all(&mut self, ids: &Vec<NodeIdx>, i: NodeIdx)
        requires
            old(self).wf(),
            i < old(self).world().modules[old(self).module_id as int].nodes.len(),
        ensures
            final(self)@ == old(self).world().visit_all(old(self).module_id, ids@, i, old(self)@),
            final(self).same(old(self)),
        decreases i, 1int, ids@.len(),
    {
        let ghost w = self.world();
        let ghost m = self.module_id;
        let ghost start = self@;
        let mut k: usize = 0;
        assert(ids@.subrange(0, 0) =~= Seq::<NodeIdx>::empty());
        while k < ids.len()
            invariant
                k <= ids@.len(),
                self.wf(),
                self.same(old(self)),
                w == self.world(),
                m == self.module_id,
                i < w.modules[m as int].nodes.len(),
                self@ == w.visit_all(m, ids@.subrange(0, k as int), i, start),
            decreases ids@.len() - k,
        {
            proof {
                assert(ids@.subrange(0, k + 1).drop_last() =~= ids@.subrange(0, k as int));
                assert(ids@.subrange(0, k + 1).last() == ids@[k as int]);
            }
            self.visit(ids[k], i);
            k = k + 1;
        }
        assert(ids@.subrange(0, ids@.len() as int) =~= ids@);
    }

    fn node(&mut self, i: NodeIdx)
        requires
            old(self).wf(),
            i < old(self).world().modules[old(self).module_id as int].nodes.len(),
        ensures
            final(self)@ == old(self).world().resolve_node(old(self).module_id, i, old(self)@),
            final(self).same(old(self)),
        decreases i, 3int, 0nat,
    {
        let m = self.module_id;
        let g = GlobalIdx(m, i);
        let modules = self.modules;
        match modules.get_node(g) {
            Node::System(system) => {
                match &system.ident {
                    Some(ident) => {
                        self.declare(Identifier::Name(ident.clone()), g);
                    },
                    None => {},
                }
                self.visit(system.block, i);
            },
            Node::Resource(f) => {
                self.visit(f.ty, i);
            },
            Node::Component(f) => {
                self.visit(f.ty, i);
            },
            Node::TypeIdent(name) => {
                let ident = Identifier::Name(name.0.clone());
                self.bind(g, &ident, ErrorCode::TypeNameNotFound);
            },
            Node::Struct(s) => {
                let mut ids: Vec<NodeIdx> = Vec::new();
                let mut k: usize = 0;
                while k < s.0.len()
                    invariant
                        k <= s.0@.len(),
                        ids@ == type_ids(s.0@).subrange(0, k as int),
                    decreases s.0@.len() - k,
                {
                    ids.push(s.0[k].ty);
                    assert(ids@ =~= type_ids(s.0@).subrange(0, k + 1));
                    k = k + 1;
                }
                assert(ids@ =~= type_ids(s.0@));
                self.visit_all(&ids, i);
            },
            Node::Expr(e) => {
                self.expr(e, i);
            },
            Node::BuiltinType { .. } => {},
            Node::BuiltinFunction { .. } => {},
            Node::Import(_) => {},
        }
    }

    fn expr(&mut self, e: &Expr, i: NodeIdx)
        requires
            old(self).wf(),
            i < old(self).world().modules[old(self).module_id as int].nodes.len(),
            old(self).world().node(GlobalIdx(old(self).module_id, i)) == Node::Expr(*e),
        ensures
            final(self)@ == old(self).world().resolve_node(old(self).module_id, i, old(self)@),
            final(self).same(old(self)),
        decreases i, 2int, 0nat,
    {
        let m = self.module_id;
        let g = GlobalIdx(m, i);
        let modules = self.modules;
        match e {
            Expr::Block(ids) => {
                self.scope.push_scope();
                self.visit_all(ids, i);
                self.scope.pop_scope();
            },
            Expr::Identifier(name) => {
                self.bind(g, name, ErrorCode::NameNotFound);
            },
            Expr::FunctionCall { function, args } => {
                self.visit(*function, i);
                self.visit_all(args, i);
            },
            Expr::Query { entity, block } => {
                self.declare(Identifier::Name(entity.clone()), g);
                self.visit(*block, i);
            },
            Expr::Number(_) => {},
            Expr::Poison => {},
            Expr::ComponentAccess { entity, component } => {
                self.visit(*entity, i);
                self.visit(*component, i);
            },
            Expr::ResourceAccess { resource } => {
                self.visit(*resource, i);
            },
            Expr::MemberAccess { base, .. } => {
                self.visit(*base, i);
            },
            Expr::Assign { lvalue, expr } => {
                self.visit(*lvalue, i);
                self.visit(*expr, i);
            },
            Expr::Let { lvalue, expr } => {
                let target = GlobalIdx(m, *lvalue);
                if (*lvalue as usize) < modules.get_ref(m).len() {
                    match modules.get_node(target).as_expr_identifier() {
                        Some(ident) => {
                            self.declare(ident.clone(), target);
                        },
                        None => {
                            self.visit(*lvalue, i);
                        },
                    }
                }
                self.visit(*expr, i);
            },
            Expr::Del { expr } => {
                self.visit(*expr, i);
            },
            Expr::If { cond, expr, otherwise } => {
                self.visit(*cond, i);
                self.visit(*expr, i);
                match otherwise {
                    Some(otherwise) => {
                        self.visit(*otherwise, i);
                    },
                    None => {},
                }
            },
            Expr::While { cond, expr } => {
                self.visit(*cond, i);
                self.visit(*expr, i);
            },
            Expr::Struct { ident, fields } => {
                self.bind(g, ident, ErrorCode::StructNameNotFound);
                let mut ids: Vec<NodeIdx> = Vec::new();
                let mut k: usize = 0;
                while k < fields.len()
                    invariant
                        k <= fields@.len(),
                        ids@ == field_ids(fields@).subrange(0, k as int),
                    decreases fields@.len() - k,
                {
                    ids.push(fields[k].1);
                    assert(ids@ =~= field_ids(fields@).subrange(0, k + 1));
                    k = k + 1;
                }
                assert(ids@ =~= field_ids(fields@));
                self.visit_all(&ids, i);
            },
        }
    }

    fn import_module(&mut self, target: ModuleID)
        requires
            old(self).wf(),
        ensures
            final(self)@ == old(self).world().import_module(target, old(self)@),
            final(self).same(old(self)),
    {
        let modules = self.modules;
        if target < modules.len() {
            let names = modules.top_level_names(target);
            let ghost all = self.world().names(target);
            let ghost start = self@;
            let mut k: usize = 0;
            assert(all.subrange(0, 0) =~= Seq::<(IdentModel, NodeIdx)>::empty());
            while k < names.len()
                invariant
                    k <= names@.len(),
                    self.same(old(self)),
                    names_model(names@) == all,
                    self@ == start.declare_all(all.subrange(0, k as int), target),
                decreases names@.len() - k,
            {
                proof {
                    assert(all.subrange(0, k + 1).drop_last() =~= all.subrange(0, k as int));
                    assert(all.subrange(0, k + 1).last() == all[k as int]);
                    assert(all[k as int] == (names@[k as int].0@, names@[k as int].1));
                }
                self.declare(names[k].0.clone(), GlobalIdx(target, names[k].1));
                k = k + 1;
            }
            assert(all.subrange(0, all.len() as int) =~= all);
        }
    }
}

/// Resolves the names of module `module_id`: adds to the names of the
/// cache an entry for each identifier and each name of a type that stands
/// for something, and to the diagnostics of the module one for each that
/// stands for nothing.
pub fn run(cache: &mut Cache, modules: &ModuleCollection, module_id: ModuleID)
    requires
        module_id < modules@.modules.len(),
    ensures
        final(cache).names@ == modules@.resolve_module(
            module_id,
            old(cache).names@,
            Seq::empty(),
        ).names,
        crate::cache::values_of(final(cache).errors@, module_id) == crate::cache::values_of(
            old(cache).errors@,
            module_id,
        ) + modules@.resolve_module(module_id, old(cache).names@, Seq::empty()).errors,
        forall|other: ModuleID|
            other != module_id ==> crate::cache::values_of(final(cache).errors@, other)
                == crate::cache::values_of(old(cache).errors@, other),
        final(cache).types == old(cache).types,
        final(cache).effects == old(cache).effects,
{
    let _ = modules.len();
    let ghost w = modules@;
    let mut names = NameMap::new();
    std::mem::swap(&mut names, &mut cache.names);
    let mut ctx = ResolveCtx {
        modules,
        module_id,
        errors: Vec::new(),
        names,
        scope: NameScope::new(),
    };
    let ghost start = ctx@;
    let tops = modules.get_ref(module_id).top_level_ids();
    let mut k: usize = 0;
    assert(tops@.subrange(0, 0) =~= Seq::<NodeIdx>::empty());
    while k < tops.len()
        invariant
            k <= tops@.len(),
            ctx.wf(),
            ctx.modules == modules,
            ctx.module_id == module_id,
            w == modules@,
            tops@ == w.tops[module_id as int],
            ctx@ == w.import_items(module_id, tops@.subrange(0, k as int), start),
        decreases tops@.len() - k,
    {
        proof {
            assert(tops@.subrange(0, k + 1).drop_last() =~= tops@.subrange(0, k as int));
            assert(tops@.subrange(0, k + 1).last() == tops@[k as int]);
        }
        let g = GlobalIdx(module_id, tops[k]);
        match modules.get_node(g) {
            Node::Import(path) => {
                match modules.path_to_id(path.as_str()) {
                    Some(target) => {
                        ctx.import_module(target);
                    },
                    None => {
                        let report = error_at(modules, ErrorCode::NameNotFound, g);
                        ctx.errors.push(report);
                    },
                }
            },
            _ => {},
        }
        k = k + 1;
    }
    assert(tops@.subrange(0, tops@.len() as int) =~= tops@);
    ctx.import_module(module_id);
    let ghost imported = ctx@;
    let mut k: usize = 0;
    while k < tops.len()
        invariant
            k <= tops@.len(),
            ctx.wf(),
            ctx.modules == modules,
            ctx.module_id == module_id,
            w == modules@,
            tops@ == w.tops[module_id as int],
            ctx@ == w.resolve_items(module_id, tops@.subrange(0, k as int), imported),
        decreases tops@.len() - k,
    {
        proof {
            assert(tops@.subrange(0, k + 1).drop_last() =~= tops@.subrange(0, k as int));
            assert(tops@.subrange(0, k + 1).last() == tops@[k as int]);
        }
        ctx.node(tops[k]);
        k = k + 1;
    }
    assert(tops@.subrange(0, tops@.len() as int) =~= tops@);
    let ResolveCtx { errors, names, .. } = ctx;
    cache.names = names;
    cache.errors.append(module_id, errors);
}

} // verus!

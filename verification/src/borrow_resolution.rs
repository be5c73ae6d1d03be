//! The effect resolution pass.

use crate::cache::{Cache, EffectMap, NameMap};
use crate::cache::values_of;
use crate::effects::{
    conflicts, effect_set, fold_join, join_sets, or_empty, overlaps, reduce_join,
    AccessRequirement, EffectModel, EffectSet, Visit,
};
use crate::name_resolution::error_at;
use crate::report::{ErrorCode, Report};
use crate::resolved_effect::ComponentEffectKind;
use crate::hir::{Expr, GlobalIdx, Identifier, NodeIdx, Node, Operator};
use crate::module_index::{ModuleCollection, World};
use crate::names::field_ids;
use crate::report::ModuleID;
use crate::resolved_effect::{join, ResolvedEffect, ResolvedEffects};
use vstd::prelude::*;

verus! {

/// The model of an access set that may be unknown.
pub open spec fn set_model(a: Option<ResolvedEffects>) -> EffectSet {
    match a {
        Some(a) => Some(a@),
        None => None,
    }
}

/// The model of the access sets recorded.
pub open spec fn effects_model(map: Map<GlobalIdx, ResolvedEffects>) -> EffectModel {
    Map::new(|g: GlobalIdx| map.contains_key(g), |g: GlobalIdx| map[g]@)
}

struct ResolveCtx<'c> {
    modules: &'c ModuleCollection,
    names: &'c NameMap,
    module_id: ModuleID,
    effects: EffectMap,
}

impl<'c> ResolveCtx<'c> {
    spec fn world(&self) -> World {
        self.modules@
    }

    spec fn model(&self) -> EffectModel {
        effects_model(self.effects@)
    }

    spec fn wf(&self) -> bool {
        self.world().wf() && self.module_id < self.world().modules.len()
    }

    spec fn same(&self, old: &Self) -> bool {
        self.modules == old.modules && self.module_id == old.module_id && self.names == old.names
    }

    /// Whether `r` with the sets now recorded is what the visit `v`
    /// yields.
    spec fn yields(&self, r: Option<ResolvedEffects>, v: Visit) -> bool {
        set_model(r) == v.effects && self.model() == v.map
    }

    fn child(&mut self, c: NodeIdx, i: NodeIdx, ctx: AccessRequirement) -> (r: Option<ResolvedEffects>)
        requires
            old(self).wf(),
            i < old(self).world().modules[old(self).module_id as int].nodes.len(),
        ensures
            final(self).same(old(self)),
            final(self).yields(
                r,
                old(self).world().effect_child(
                    old(self).names@,
                    old(self).module_id,
                    c,
                    i,
                    ctx,
                    old(self).model(),
                ),
            ),
        decreases i, 0int, 0nat,
    {
        if c < i {
            self.node(c, ctx)
        } else {
            None
        }
    }

    fn pair(
        &mut self,
        i: NodeIdx,
        a: NodeIdx,
        ctx_a: AccessRequirement,
        b: NodeIdx,
        ctx_b: AccessRequirement,
    ) -> (r: Option<ResolvedEffects>)
        requires
            old(self).wf(),
            i < old(self).world().modules[old(self).module_id as int].nodes.len(),
        ensures
            final(self).same(old(self)),
            final(self).yields(
                r,
                old(self).world().effect_pair(
                    old(self).names@,
                    old(self).module_id,
                    i,
                    a,
                    ctx_a,
                    b,
                    ctx_b,
                    old(self).model(),
                ),
            ),
        decreases i, 1int, 0nat,
    {
        let x = self.child(a, i, ctx_a);
        let y = self.child(b, i, ctx_b);
        join(x, y)
    }

    /// Visits the nodes `ids` and joins their access sets onto `init`, or,
    /// where there is no `init`, onto each other.
    fn list(
        &mut self,
        init: Option<Option<ResolvedEffects>>,
        ids: &Vec<NodeIdx>,
        i: NodeIdx,
        last: AccessRequirement,
        rest: AccessRequirement,
    ) -> (r: Option<ResolvedEffects>)
        requires
            old(self).wf(),
            i < old(self).world().modules[old(self).module_id as int].nodes.len(),
        ensures
            final(self).same(old(self)),
            ({
                let (sets, map) = old(self).world().effect_list(
                    old(self).names@,
                    old(self).module_id,
                    ids@,
                    i,
                    last,
                    rest,
                    old(self).model(),
                );
                final(self).yields(
                    r,
                    Visit {
                        effects: match init {
                            Some(init) => fold_join(set_model(init), sets),
                            None => reduce_join(sets),
                        },
                        map,
                    },
                )
            }),
        decreases i, 1int, ids@.len(),
    {
        let ghost w = self.world();
        let ghost names = self.names@;
        let ghost m = self.module_id;
        let ghost start = self.model();
        let n = ids.len();
        let (mut acc, mut joined) = match init {
            Some(init) => (init, true),
            None => (None, false),
        };
        if n == 0 {
            return acc;
        }
        let mut k: usize = 0;
        assert(ids@.subrange(0, 0) =~= Seq::<NodeIdx>::empty());
        while k < n - 1
            invariant
                n == ids@.len(),
                n > 0,
                k <= n - 1,
                self.wf(),
                self.same(old(self)),
                w == self.world(),
                names == self.names@,
                m == self.module_id,
                i < w.modules[m as int].nodes.len(),
                joined == (init.is_some() || k > 0),
                ({
                    let (sets, map) = w.effect_list(
                        names,
                        m,
                        ids@.subrange(0, k as int),
                        i,
                        rest,
                        rest,
                        start,
                    );
                    &&& self.model() == map
                    &&& sets.len() == k
                    &&& set_model(acc) == match init {
                        Some(init) => fold_join(set_model(init), sets),
                        None => reduce_join(sets),
                    }
                }),
            decreases n - k,
        {
            proof {
                assert(ids@.subrange(0, k + 1).drop_last() =~= ids@.subrange(0, k as int));
                assert(ids@.subrange(0, k + 1).last() == ids@[k as int]);
                let (sets, map) = w.effect_list(
                    names,
                    m,
                    ids@.subrange(0, k as int),
                    i,
                    rest,
                    rest,
                    start,
                );
                let v = w.effect_child(names, m, ids@[k as int], i, rest, map);
                assert(sets.push(v.effects).drop_last() =~= sets);
            }
            let r = self.child(ids[k], i, rest);
            acc = if joined {
                join(acc, r)
            } else {
                r
            };
            joined = true;
            k = k + 1;
        }
        proof {
            assert(ids@.drop_last() =~= ids@.subrange(0, n - 1));
            let (sets, map) = w.effect_list(names, m, ids@.drop_last(), i, rest, rest, start);
            let v = w.effect_child(names, m, ids@.last(), i, last, map);
            assert(sets.push(v.effects).drop_last() =~= sets);
        }
        let r = self.child(ids[n - 1], i, last);
        if joined {
            join(acc, r)
        } else {
            r
        }
    }

    fn node(&mut self, i: NodeIdx, ctx: AccessRequirement) -> (r: Option<ResolvedEffects>)
        requires
            old(self).wf(),
            i < old(self).world().modules[old(self).module_id as int].nodes.len(),
        ensures
            final(self).same(old(self)),
            final(self).yields(
                r,
                old(self).world().effect_node(
                    old(self).names@,
                    old(self).module_id,
                    i,
                    ctx,
                    old(self).model(),
                ),
            ),
        decreases i, 3int, 0nat,
    {
        let result = self.inner(i, ctx);
        let recorded = match &result {
            Some(r) => r.clone(),
            None => ResolvedEffects::new(),
        };
        let ghost before = self.effects@;
        self.effects.set(GlobalIdx(self.module_id, i), recorded);
        proof {
            assert(effects_model(self.effects@) =~= effects_model(before).insert(
                GlobalIdx(self.module_id, i),
                recorded@,
            ));
        }
        result
    }

    fn inner(&mut self, i: NodeIdx, ctx: AccessRequirement) -> (r: Option<ResolvedEffects>)
        requires
            old(self).wf(),
            i < old(self).world().modules[old(self).module_id as int].nodes.len(),
        ensures
            final(self).same(old(self)),
            final(self).yields(
                r,
                old(self).world().effect_inner(
                    old(self).names@,
                    old(self).module_id,
                    i,
                    ctx,
                    old(self).model(),
                ),
            ),
        decreases i, 2int, 0nat,
    {
        let m = self.module_id;
        let modules = self.modules;
        let names = self.names;
        match modules.get_node(GlobalIdx(m, i)) {
            Node::System(system) => self.child(system.block, i, ctx),
            Node::Resource(_) => Some(ResolvedEffects::new()),
            Node::Component(_) => Some(ResolvedEffects::new()),
            Node::TypeIdent(_) => Some(ResolvedEffects::new()),
            Node::Struct(_) => Some(ResolvedEffects::new()),
            Node::Import(_) => Some(ResolvedEffects::new()),
            Node::BuiltinType { effects, .. } => Some(effects.clone()),
            Node::BuiltinFunction { effects, .. } => Some(effects.clone()),
            Node::Expr(e) => match e {
                Expr::Query { block, .. } => self.child(*block, i, AccessRequirement::Read),
                Expr::Block(ids) => self.list(None, ids, i, ctx, AccessRequirement::Nothing),
                Expr::FunctionCall { function, args } => {
                    let effect = self.child(*function, i, AccessRequirement::Read);
                    let is_not = match modules.get_ref(m).node(*function) {
                        Some(Node::Expr(Expr::Identifier(Identifier::Operator(Operator::Not)))) => true,
                        _ => false,
                    };
                    let access = if is_not {
                        AccessRequirement::Has
                    } else {
                        AccessRequirement::Read
                    };
                    self.list(Some(effect), args, i, access, access)
                },
                Expr::Identifier(_) => Some(ResolvedEffects::new()),
                Expr::Number(_) => Some(ResolvedEffects::new()),
                Expr::Poison => Some(ResolvedEffects::new()),
                Expr::ComponentAccess { entity, component } => {
                    let component = match names.get(GlobalIdx(m, *component)) {
                        Some(def) => def.definition(),
                        None => {
                            return None;
                        },
                    };
                    let entity = match names.get(GlobalIdx(m, *entity)) {
                        Some(def) => def.definition(),
                        None => {
                            return None;
                        },
                    };
                    Some(single(ctx.component_effect(component, entity)))
                },
                Expr::ResourceAccess { resource } => {
                    let component = match names.get(GlobalIdx(m, *resource)) {
                        Some(def) => def.definition(),
                        None => {
                            return None;
                        },
                    };
                    Some(single(ctx.resource_effect(component)))
                },
                Expr::MemberAccess { base, .. } => self.child(*base, i, ctx.for_base()),
                Expr::Assign { lvalue, expr } => self.pair(
                    i,
                    *lvalue,
                    AccessRequirement::Write,
                    *expr,
                    AccessRequirement::Read,
                ),
                Expr::Let { lvalue, expr } => self.pair(
                    i,
                    *lvalue,
                    AccessRequirement::StructuralChange,
                    *expr,
                    AccessRequirement::Read,
                ),
                Expr::Del { expr } => self.child(*expr, i, AccessRequirement::StructuralChange),
                Expr::If { cond, expr, otherwise } => {
                    let then = self.pair(i, *cond, AccessRequirement::Has, *expr, ctx);
                    match otherwise {
                        Some(otherwise) => {
                            let o = self.child(*otherwise, i, ctx);
                            join(then, o)
                        },
                        None => then,
                    }
                },
                Expr::While { cond, expr } => self.pair(
                    i,
                    *cond,
                    AccessRequirement::Has,
                    *expr,
                    ctx,
                ),
                Expr::Struct { fields, .. } => {
                    let mut ids: Vec<NodeIdx> = Vec::new();
                    let mut k: usize = 0;
                    while k < fields.len()
                        invariant
                            k <= fields@.len(),
                            ids@ == field_ids(fields@).subrange(0, k as int),
                        decreases fields@.len() - k,
                    {
                        ids.push(fields[k].1);
                        assert(ids@ =~= field_ids(fields@).subrange(0, k + 1));
                        k = k + 1;
                    }
                    assert(ids@ =~= field_ids(fields@));
                    self.list(None, &ids, i, AccessRequirement::Read, AccessRequirement::Read)
                },
            },
        }
    }
}

/// The set of the effect `e`, if there is one.
fn single(e: Option<ResolvedEffect>) -> (r: ResolvedEffects)
    ensures
        r@ == effect_set(e),
{
    let mut r = ResolvedEffects::new();
    match e {
        Some(e) => {
            r.insert(e);
            assert(r@ =~= set![e]);
        },
        None => {},
    }
    r
}

/// The query through whose entities the effect touches components.
fn entity_of(e: &ResolvedEffect) -> (r: Option<GlobalIdx>)
    ensures
        r == crate::effects::effect_entity(*e),
{
    match e {
        ResolvedEffect::Access { kind, .. } => match kind {
            ComponentEffectKind::ReadComponent { entity } => Some(*entity),
            ComponentEffectKind::WriteComponent { entity } => Some(*entity),
            ComponentEffectKind::HasComponent { entity } => Some(*entity),
            _ => None,
        },
        ResolvedEffect::StructuralChange { entity } => *entity,
    }
}

fn writes(e: &ResolvedEffect) -> (r: bool)
    ensures
        r == crate::effects::effect_writes(*e),
{
    match e {
        ResolvedEffect::Access { kind, .. } => match kind {
            ComponentEffectKind::WriteComponent { .. } => true,
            _ => false,
        },
        ResolvedEffect::StructuralChange { .. } => true,
    }
}

/// Whether two effects of the body of a query cannot both be granted.
pub fn in_conflict(a: &ResolvedEffect, b: &ResolvedEffect) -> (r: bool)
    ensures
        r == conflicts(*a, *b),
{
    let (x, y) = match (entity_of(a), entity_of(b)) {
        (Some(x), Some(y)) => (x, y),
        _ => {
            return false;
        },
    };
    if x.same(&y) {
        return false;
    }
    if !writes(a) && !writes(b) {
        return false;
    }
    match (a, b) {
        (
            ResolvedEffect::Access { component: p, .. },
            ResolvedEffect::Access { component: q, .. },
        ) => p.same(q),
        _ => true,
    }
}

/// Whether two effects of the set conflict.
pub fn has_conflict(effects: &ResolvedEffects) -> (r: bool)
    ensures
        r == overlaps(effects@),
{
    let all = effects.to_vec();
    let mut i: usize = 0;
    while i < all.len()
        invariant
            i <= all@.len(),
            forall|e: ResolvedEffect| all@.contains(e) == effects@.contains(e),
            forall|p: int, q: int|
                0 <= p < i && 0 <= q < all@.len() ==> !#[trigger] conflicts(all@[p], all@[q]),
        decreases all@.len() - i,
    {
        let mut j: usize = 0;
        while j < all.len()
            invariant
                i < all@.len(),
                j <= all@.len(),
                forall|e: ResolvedEffect| all@.contains(e) == effects@.contains(e),
                forall|q: int| 0 <= q < j ==> !#[trigger] conflicts(all@[i as int], all@[q]),
            decreases all@.len() - j,
        {
            if in_conflict(&all[i], &all[j]) {
                proof {
                    assert(all@.contains(all@[i as int]));
                    assert(all@.contains(all@[j as int]));
                    assert(conflicts(all@[i as int], all@[j as int]));
                }
                return true;
            }
            j = j + 1;
        }
        i = i + 1;
    }
    proof {
        assert forall|a: ResolvedEffect, b: ResolvedEffect|
            effects@.contains(a) && effects@.contains(b) implies !#[trigger] conflicts(a, b) by {
            assert(all@.contains(a));
            assert(all@.contains(b));
            let p = choose|p: int| 0 <= p < all@.len() && all@[p] == a;
            let q = choose|q: int| 0 <= q < all@.len() && all@[q] == b;
            assert(!conflicts(all@[p], all@[q]));
        }
    }
    false
}

/// Resolves the effects of module `module_id`: records for each node that
/// is reached from a top-level item the access set that it needs. A query
/// whose body holds two effects that conflict gets a diagnostic: queries
/// that touch the same component may not be nested if one of them changes
/// it. The names must be resolved before.
pub fn run(cache: &mut Cache, modules: &ModuleCollection, module_id: ModuleID)
    requires
        module_id < modules@.modules.len(),
    ensures
        effects_model(final(cache).effects@) == modules@.effect_items(
            old(cache).names@,
            module_id,
            modules@.tops[module_id as int],
            effects_model(old(cache).effects@),
        ),
        values_of(final(cache).errors@, module_id) == values_of(old(cache).errors@, module_id)
            + modules@.query_errors(
            module_id,
            effects_model(final(cache).effects@),
            modules@.modules[module_id as int].nodes.len(),
        ),
        forall|other: ModuleID|
            other != module_id ==> values_of(final(cache).errors@, other) == values_of(
                old(cache).errors@,
                other,
            ),
        final(cache).names == old(cache).names,
        final(cache).types == old(cache).types,
{
    let _ = modules.len();
    let ghost w = modules@;
    let ghost start = effects_model(cache.effects@);
    let mut effects = EffectMap::new();
    std::mem::swap(&mut effects, &mut cache.effects);
    let mut ctx = ResolveCtx { modules, names: &cache.names, module_id, effects };
    let tops = modules.get_ref(module_id).top_level_ids();
    let mut k: usize = 0;
    assert(tops@.subrange(0, 0) =~= Seq::<NodeIdx>::empty());
    while k < tops.len()
        invariant
            k <= tops@.len(),
            ctx.wf(),
            ctx.modules == modules,
            ctx.module_id == module_id,
            ctx.names@ == old(cache).names@,
            w == modules@,
            tops@ == w.tops[module_id as int],
            ctx.model() == w.effect_items(
                old(cache).names@,
                module_id,
                tops@.subrange(0, k as int),
                start,
            ),
        decreases tops@.len() - k,
    {
        proof {
            assert(tops@.subrange(0, k + 1).drop_last() =~= tops@.subrange(0, k as int));
            assert(tops@.subrange(0, k + 1).last() == tops@[k as int]);
        }
        ctx.node(tops[k], AccessRequirement::Nothing);
        k = k + 1;
    }
    assert(tops@.subrange(0, tops@.len() as int) =~= tops@);
    let ResolveCtx { effects, .. } = ctx;
    cache.effects = effects;
    let ghost map = effects_model(cache.effects@);
    let module = modules.get_ref(module_id);
    let n = module.len();
    let mut errors: Vec<Report> = Vec::new();
    let mut i: usize = 0;
    while i < n
        invariant
            i <= n,
            n == w.modules[module_id as int].nodes.len(),
            n <= u32::MAX,
            w == modules@,
            module_id < w.modules.len(),
            *module == modules.module(module_id),
            module.ir() == w.modules[module_id as int],
            map == effects_model(cache.effects@),
            errors@ == w.query_errors(module_id, map, i as nat),
        decreases n - i,
    {
        let g = GlobalIdx(module_id, i as u32);
        let is_query = match module.get_node(i as u32) {
            Node::Expr(Expr::Query { .. }) => true,
            _ => false,
        };
        if is_query {
            let conflict = match cache.effects.get_ref(g) {
                Some(effects) => has_conflict(effects),
                None => false,
            };
            if conflict {
                errors.push(error_at(modules, ErrorCode::NestedQueryConflict, g));
            }
        }
        i = i + 1;
    }
    cache.errors.append(module_id, errors);
}

} // verus!

//! Effect resolution, as a mathematical function: the accesses to the
//! store that each expression needs.
//!
//! An expression is resolved under a requirement that says what its value
//! is wanted for. An access to a component or resource contributes the one
//! effect that the requirement asks for; every other expression hands the
//! requirement on to its parts, or sets a new one for them.

use crate::cache::ResolvedDefinition;
use crate::hir::{Expr, GlobalIdx, Identifier, NodeIdx, Node, Operator};
use crate::module_index::World;
use crate::names::field_ids;
use crate::report::{ErrorCode, ModuleID, Report};
use crate::resolved_effect::{ComponentEffectKind, ResolvedEffect, ResolvedEffects};
use vstd::prelude::*;

verus! {

/// What the value of an expression is wanted for.
#[derive(Debug, Clone, Copy, PartialEq, Eq, Structural)]
pub enum AccessRequirement {
    /// Nothing: the value is dropped.
    Nothing,
    /// Only whether it is there.
    Has,
    /// To be read.
    Read,
    /// To be written.
    Write,
    /// To be added or removed.
    StructuralChange,
}

/// Mathematical model of an access set that may be unknown.
pub type EffectSet = Option<Set<ResolvedEffect>>;

/// The access sets recorded, by node.
pub type EffectModel = Map<GlobalIdx, Set<ResolvedEffect>>;

/// What a visit of a node yields: its access set, and the sets recorded.
pub struct Visit {
    pub effects: EffectSet,
    pub map: EffectModel,
}

/// The set, or the empty set where it is unknown.
pub open spec fn or_empty(a: EffectSet) -> Set<ResolvedEffect> {
    match a {
        Some(a) => a,
        None => Set::empty(),
    }
}

/// The union of two access sets, either of which may be unknown.
pub open spec fn join_sets(a: EffectSet, b: EffectSet) -> EffectSet {
    Some(or_empty(a).union(or_empty(b)))
}

/// The access sets `rs` joined from the left: unknown for none, the set
/// itself for one.
pub open spec fn reduce_join(rs: Seq<EffectSet>) -> EffectSet
    decreases rs.len(),
{
    if rs.len() == 0 {
        None
    } else if rs.len() == 1 {
        rs[0]
    } else {
        join_sets(reduce_join(rs.drop_last()), rs.last())
    }
}

/// The access sets `rs` joined onto `init` from the left.
pub open spec fn fold_join(init: EffectSet, rs: Seq<EffectSet>) -> EffectSet
    decreases rs.len(),
{
    if rs.len() == 0 {
        init
    } else {
        join_sets(fold_join(init, rs.drop_last()), rs.last())
    }
}

/// The set of the effect `e`, if there is one.
pub open spec fn effect_set(e: Option<ResolvedEffect>) -> Set<ResolvedEffect> {
    match e {
        Some(e) => set![e],
        None => Set::empty(),
    }
}

impl AccessRequirement {
    /// The effect of an access to `component` of the entities of the query
    /// `entity` under this requirement.
    pub open spec fn spec_component_effect(self, component: GlobalIdx, entity: GlobalIdx) -> Option<
        ResolvedEffect,
    > {
        match self {
            AccessRequirement::Nothing => None,
            AccessRequirement::Has => Some(
                ResolvedEffect::Access {
                    component,
                    kind: ComponentEffectKind::HasComponent { entity },
                },
            ),
            AccessRequirement::Read => Some(
                ResolvedEffect::Access {
                    component,
                    kind: ComponentEffectKind::ReadComponent { entity },
                },
            ),
            AccessRequirement::Write => Some(
                ResolvedEffect::Access {
                    component,
                    kind: ComponentEffectKind::WriteComponent { entity },
                },
            ),
            AccessRequirement::StructuralChange => Some(
                ResolvedEffect::StructuralChange { entity: Some(entity) },
            ),
        }
    }

    /// The effect of an access to the resource `component` under this
    /// requirement. To test whether a resource is there is no effect.
    pub open spec fn spec_resource_effect(self, component: GlobalIdx) -> Option<ResolvedEffect> {
        match self {
            AccessRequirement::Nothing => None,
            AccessRequirement::Has => None,
            AccessRequirement::Read => Some(
                ResolvedEffect::Access { component, kind: ComponentEffectKind::ReadResource },
            ),
            AccessRequirement::Write => Some(
                ResolvedEffect::Access { component, kind: ComponentEffectKind::WriteResource },
            ),
            AccessRequirement::StructuralChange => Some(
                ResolvedEffect::StructuralChange { entity: None },
            ),
        }
    }

    #[verifier::when_used_as_spec(spec_component_effect)]
    pub fn component_effect(self, component: GlobalIdx, entity: GlobalIdx) -> (r: Option<
        ResolvedEffect,
    >)
        ensures
            r == self.spec_component_effect(component, entity),
    {
        match self {
            AccessRequirement::Nothing => None,
            AccessRequirement::Has => Some(
                ResolvedEffect::Access {
                    component,
                    kind: ComponentEffectKind::HasComponent { entity },
                },
            ),
            AccessRequirement::Read => Some(
                ResolvedEffect::Access {
                    component,
                    kind: ComponentEffectKind::ReadComponent { entity },
                },
            ),
            AccessRequirement::Write => Some(
                ResolvedEffect::Access {
                    component,
                    kind: ComponentEffectKind::WriteComponent { entity },
                },
            ),
            AccessRequirement::StructuralChange => Some(
                ResolvedEffect::StructuralChange { entity: Some(entity) },
            ),
        }
    }

    #[verifier::when_used_as_spec(spec_resource_effect)]
    pub fn resource_effect(self, component: GlobalIdx) -> (r: Option<ResolvedEffect>)
        ensures
            r == self.spec_resource_effect(component),
    {
        match self {
            AccessRequirement::Nothing => None,
            AccessRequirement::Has => None,
            AccessRequirement::Read => Some(
                ResolvedEffect::Access { component, kind: ComponentEffectKind::ReadResource },
            ),
            AccessRequirement::Write => Some(
                ResolvedEffect::Access { component, kind: ComponentEffectKind::WriteResource },
            ),
            AccessRequirement::StructuralChange => Some(
                ResolvedEffect::StructuralChange { entity: None },
            ),
        }
    }

    /// The requirement for the base of a member access: to test for a
    /// member, the base is read.
    pub open spec fn spec_for_base(self) -> AccessRequirement {
        match self {
            AccessRequirement::Has => AccessRequirement::Read,
            other => other,
        }
    }

    #[verifier::when_used_as_spec(spec_for_base)]
    pub fn for_base(self) -> (r: AccessRequirement)
        ensures
            r == self.spec_for_base(),
    {
        match self {
            AccessRequirement::Has => AccessRequirement::Read,
            other => other,
        }
    }
}

/// What the passes know of the names: the definition of each node that
/// was resolved.
pub type Names = Map<GlobalIdx, ResolvedDefinition>;

impl World {
    /// Whether the node at `g` is the identifier of the operator `!`.
    pub open spec fn is_not_operator(self, g: GlobalIdx) -> bool {
        self.has(g) && self.node(g) matches Node::Expr(
            Expr::Identifier(Identifier::Operator(Operator::Not)),
        )
    }

    /// Visits the node `i` of module `m` under the requirement `ctx`:
    /// works out its access set, and records it for the node, empty where
    /// it is unknown.
    pub open spec fn effect_node(
        self,
        names: Names,
        m: ModuleID,
        i: NodeIdx,
        ctx: AccessRequirement,
        map: EffectModel,
    ) -> Visit
        decreases i, 3int, 0nat,
    {
        let v = self.effect_inner(names, m, i, ctx, map);
        Visit { effects: v.effects, map: v.map.insert(GlobalIdx(m, i), or_empty(v.effects)) }
    }

    /// Visits the node `c`, to which the node `i` refers.
    pub open spec fn effect_child(
        self,
        names: Names,
        m: ModuleID,
        c: NodeIdx,
        i: NodeIdx,
        ctx: AccessRequirement,
        map: EffectModel,
    ) -> Visit
        decreases i, 0int, 0nat,
    {
        if c < i {
            self.effect_node(names, m, c, ctx, map)
        } else {
            Visit { effects: None, map }
        }
    }

    /// Visits the nodes `ids`, to which the node `i` refers, in order: the
    /// last under the requirement `last`, the others under `rest`. Yields
    /// the access set of each.
    pub open spec fn effect_list(
        self,
        names: Names,
        m: ModuleID,
        ids: Seq<NodeIdx>,
        i: NodeIdx,
        last: AccessRequirement,
        rest: AccessRequirement,
        map: EffectModel,
    ) -> (Seq<EffectSet>, EffectModel)
        decreases i, 1int, ids.len(),
    {
        if ids.len() == 0 {
            (Seq::empty(), map)
        } else {
            let (sets, map) = self.effect_list(names, m, ids.drop_last(), i, rest, rest, map);
            let v = self.effect_child(names, m, ids.last(), i, last, map);
            (sets.push(v.effects), v.map)
        }
    }

    /// The access set of the node `i` of module `m` under the requirement
    /// `ctx`, and what visiting its parts records.
    ///
    /// - A system, and a member access, are what their body or base is; to
    ///   test a member, the base is read.
    /// - A query needs what its body needs when the body is read: what the
    ///   body evaluates for each entity counts as read, also where its
    ///   value is dropped.
    /// - A block is the union of its statements, of which only the last is
    ///   resolved under the requirement of the block.
    /// - A call reads the function and its arguments; the operator `!`
    ///   only tests its argument.
    /// - An assignment writes its target and reads its value; a `let` adds
    ///   its target and reads its value; a `del` removes its operand.
    /// - `if` and `while` test their condition.
    /// - An access to a component or resource is the one effect that the
    ///   requirement asks for, and unknown where a name in it is not
    ///   resolved.
    pub open spec fn effect_inner(
        self,
        names: Names,
        m: ModuleID,
        i: NodeIdx,
        ctx: AccessRequirement,
        map: EffectModel,
    ) -> Visit
        decreases i, 2int, 0nat,
    {
        let g = GlobalIdx(m, i);
        let empty = Visit { effects: Some(Set::empty()), map };
        let unknown = Visit { effects: None, map };
        if !self.has(g) {
            unknown
        } else {
            match self.node(g) {
                Node::System(system) => self.effect_child(names, m, system.block, i, ctx, map),
                Node::Resource(_) | Node::Component(_) | Node::TypeIdent(_) | Node::Struct(_)
                | Node::Import(_) => empty,
                Node::BuiltinType { effects, .. } | Node::BuiltinFunction { effects, .. } => Visit {
                    effects: Some(effects@),
                    map,
                },
                Node::Expr(e) => match e {
                    Expr::Query { block, .. } => self.effect_child(
                        names,
                        m,
                        block,
                        i,
                        AccessRequirement::Read,
                        map,
                    ),
                    Expr::Block(ids) => {
                        let (sets, map) = self.effect_list(
                            names,
                            m,
                            ids@,
                            i,
                            ctx,
                            AccessRequirement::Nothing,
                            map,
                        );
                        Visit { effects: reduce_join(sets), map }
                    },
                    Expr::FunctionCall { function, args } => {
                        let f = self.effect_child(
                            names,
                            m,
                            function,
                            i,
                            AccessRequirement::Read,
                            map,
                        );
                        let access = if self.is_not_operator(GlobalIdx(m, function)) {
                            AccessRequirement::Has
                        } else {
                            AccessRequirement::Read
                        };
                        let (sets, map) = self.effect_list(
                            names,
                            m,
                            args@,
                            i,
                            access,
                            access,
                            f.map,
                        );
                        Visit { effects: fold_join(f.effects, sets), map }
                    },
                    Expr::Identifier(_) | Expr::Number(_) | Expr::Poison => empty,
                    Expr::ComponentAccess { entity, component } => {
                        if names.contains_key(GlobalIdx(m, component)) && names.contains_key(
                            GlobalIdx(m, entity),
                        ) {
                            Visit {
                                effects: Some(
                                    effect_set(
                                        ctx.component_effect(
                                            names[GlobalIdx(m, component)].0,
                                            names[GlobalIdx(m, entity)].0,
                                        ),
                                    ),
                                ),
                                map,
                            }
                        } else {
                            unknown
                        }
                    },
                    Expr::ResourceAccess { resource } => {
                        if names.contains_key(GlobalIdx(m, resource)) {
                            Visit {
                                effects: Some(
                                    effect_set(
                                        ctx.resource_effect(names[GlobalIdx(m, resource)].0),
                                    ),
                                ),
                                map,
                            }
                        } else {
                            unknown
                        }
                    },
                    Expr::MemberAccess { base, .. } => self.effect_child(
                        names,
                        m,
                        base,
                        i,
                        ctx.for_base(),
                        map,
                    ),
                    Expr::Assign { lvalue, expr } => self.effect_pair(
                        names,
                        m,
                        i,
                        lvalue,
                        AccessRequirement::Write,
                        expr,
                        AccessRequirement::Read,
                        map,
                    ),
                    Expr::Let { lvalue, expr } => self.effect_pair(
                        names,
                        m,
                        i,
                        lvalue,
                        AccessRequirement::StructuralChange,
                        expr,
                        AccessRequirement::Read,
                        map,
                    ),
                    Expr::Del { expr } => self.effect_child(
                        names,
                        m,
                        expr,
                        i,
                        AccessRequirement::StructuralChange,
                        map,
                    ),
                    Expr::If { cond, expr, otherwise } => {
                        let then = self.effect_pair(
                            names,
                            m,
                            i,
                            cond,
                            AccessRequirement::Has,
                            expr,
                            ctx,
                            map,
                        );
                        match otherwise {
                            Some(otherwise) => {
                                let o = self.effect_child(names, m, otherwise, i, ctx, then.map);
                                Visit { effects: join_sets(then.effects, o.effects), map: o.map }
                            },
                            None => then,
                        }
                    },
                    Expr::While { cond, expr } => self.effect_pair(
                        names,
                        m,
                        i,
                        cond,
                        AccessRequirement::Has,
                        expr,
                        ctx,
                        map,
                    ),
                    Expr::Struct { fields, .. } => {
                        let (sets, map) = self.effect_list(
                            names,
                            m,
                            field_ids(fields@),
                            i,
                            AccessRequirement::Read,
                            AccessRequirement::Read,
                            map,
                        );
                        Visit { effects: reduce_join(sets), map }
                    },
                },
            }
        }
    }

    /// Visits the nodes `a` and then `b`, to which the node `i` refers,
    /// each under its requirement, and joins their access sets.
    pub open spec fn effect_pair(
        self,
        names: Names,
        m: ModuleID,
        i: NodeIdx,
        a: NodeIdx,
        ctx_a: AccessRequirement,
        b: NodeIdx,
        ctx_b: AccessRequirement,
        map: EffectModel,
    ) -> Visit
        decreases i, 1int, 0nat,
    {
        let x = self.effect_child(names, m, a, i, ctx_a, map);
        let y = self.effect_child(names, m, b, i, ctx_b, x.map);
        Visit { effects: join_sets(x.effects, y.effects), map: y.map }
    }

    /// Visits the nodes `ids` of module `m`, in order, each under no
    /// requirement.
    pub open spec fn effect_items(self, names: Names, m: ModuleID, ids: Seq<NodeIdx>, map: EffectModel) -> EffectModel
        decreases ids.len(),
    {
        if ids.len() == 0 {
            map
        } else {
            self.effect_node(
                names,
                m,
                ids.last(),
                AccessRequirement::Nothing,
                self.effect_items(names, m, ids.drop_last(), map),
            ).map
        }
    }
}


/// The query through whose entities the effect touches components, if it
/// touches any.
pub open spec fn effect_entity(e: ResolvedEffect) -> Option<GlobalIdx> {
    match e {
        ResolvedEffect::Access { kind, .. } => match kind {
            ComponentEffectKind::ReadComponent { entity } => Some(entity),
            ComponentEffectKind::WriteComponent { entity } => Some(entity),
            ComponentEffectKind::HasComponent { entity } => Some(entity),
            _ => None,
        },
        ResolvedEffect::StructuralChange { entity } => entity,
    }
}

/// Whether the effect changes what it touches.
pub open spec fn effect_writes(e: ResolvedEffect) -> bool {
    match e {
        ResolvedEffect::Access { kind, .. } => kind is WriteComponent,
        ResolvedEffect::StructuralChange { .. } => true,
    }
}

/// Whether two effects on components may touch the same component: they
/// name the same, or one of them adds or removes components.
pub open spec fn same_target(a: ResolvedEffect, b: ResolvedEffect) -> bool {
    match (a, b) {
        (
            ResolvedEffect::Access { component: x, .. },
            ResolvedEffect::Access { component: y, .. },
        ) => x == y,
        _ => true,
    }
}

/// Whether two effects of the body of a query cannot both be granted: they
/// touch the same component through the entities of two different queries,
/// and one of them changes it. The entities of the two queries may be the
/// same, so one query would change what the other is walking over.
pub open spec fn conflicts(a: ResolvedEffect, b: ResolvedEffect) -> bool {
    &&& effect_entity(a).is_some()
    &&& effect_entity(b).is_some()
    &&& effect_entity(a) != effect_entity(b)
    &&& effect_writes(a) || effect_writes(b)
    &&& same_target(a, b)
}

/// Whether two effects of the set conflict.
pub open spec fn overlaps(set: Set<ResolvedEffect>) -> bool {
    exists|a: ResolvedEffect, b: ResolvedEffect|
        set.contains(a) && set.contains(b) && #[trigger] conflicts(a, b)
}

impl World {
    /// The diagnostics for the queries among the first `n` nodes of module
    /// `m`: one for each query whose recorded access set holds two effects
    /// that conflict.
    pub open spec fn query_errors(self, m: ModuleID, map: EffectModel, n: nat) -> Seq<Report>
        decreases n,
    {
        if n == 0 {
            Seq::empty()
        } else {
            let before = self.query_errors(m, map, (n - 1) as nat);
            let g = GlobalIdx(m, (n - 1) as u32);
            if self.has(g) && (self.node(g) matches Node::Expr(Expr::Query { .. }))
                && map.contains_key(g) && overlaps(map[g]) {
                before.push(self.error_at(ErrorCode::NestedQueryConflict, g))
            } else {
                before
            }
        }
    }
}

} // verus!

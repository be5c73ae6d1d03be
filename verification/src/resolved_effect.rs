//! Effects: the accesses to the store that a piece of code needs.

use crate::hir::GlobalIdx;
use vstd::prelude::*;

verus! {

/// One access to the store.
#[derive(Clone, Copy, PartialEq, Eq, Hash, Debug)]
pub enum ResolvedEffect {
    /// Reads, writes or tests one component or resource.
    Access { component: GlobalIdx, kind: ComponentEffectKind },
    /// Adds or removes a component of the entities of a query (`entity` is
    /// the query), or a resource (`None`).
    StructuralChange { entity: Option<GlobalIdx> },
}

/// What an access does, and for a component, to the entities of which
/// query.
#[derive(Clone, Copy, PartialEq, Eq, Hash, Debug)]
pub enum ComponentEffectKind {
    ReadResource,
    WriteResource,
    ReadComponent { entity: GlobalIdx },
    WriteComponent { entity: GlobalIdx },
    HasComponent { entity: GlobalIdx },
}

impl ComponentEffectKind {
    /// Whether two kinds are equal.
    pub fn same(&self, other: &ComponentEffectKind) -> (r: bool)
        ensures
            r == (*self == *other),
    {
        match (self, other) {
            (ComponentEffectKind::ReadResource, ComponentEffectKind::ReadResource) => true,
            (ComponentEffectKind::WriteResource, ComponentEffectKind::WriteResource) => true,
            (
                ComponentEffectKind::ReadComponent { entity: a },
                ComponentEffectKind::ReadComponent { entity: b },
            ) => a.same(b),
            (
                ComponentEffectKind::WriteComponent { entity: a },
                ComponentEffectKind::WriteComponent { entity: b },
            ) => a.same(b),
            (
                ComponentEffectKind::HasComponent { entity: a },
                ComponentEffectKind::HasComponent { entity: b },
            ) => a.same(b),
            _ => false,
        }
    }
}

impl ResolvedEffect {
    /// Whether two effects are equal.
    pub fn same(&self, other: &ResolvedEffect) -> (r: bool)
        ensures
            r == (*self == *other),
    {
        match (self, other) {
            (
                ResolvedEffect::Access { component: a, kind: ka },
                ResolvedEffect::Access { component: b, kind: kb },
            ) => a.same(b) && ka.same(kb),
            (
                ResolvedEffect::StructuralChange { entity: a },
                ResolvedEffect::StructuralChange { entity: b },
            ) => match (a, b) {
                (Some(x), Some(y)) => x.same(y),
                (None, None) => true,
                _ => false,
            },
            _ => false,
        }
    }
}

/// A set of effects: the access set of a piece of code.
#[derive(Debug)]
pub struct ResolvedEffects {
    items: Vec<ResolvedEffect>,
}

impl View for ResolvedEffects {
    type V = Set<ResolvedEffect>;

    closed spec fn view(&self) -> Set<ResolvedEffect> {
        Set::new(|e: ResolvedEffect| self.items@.contains(e))
    }
}

impl ResolvedEffects {
    /// The empty set.
    pub fn new() -> (r: Self)
        ensures
            r@ == Set::<ResolvedEffect>::empty(),
            r.listed() == Seq::<ResolvedEffect>::empty(),
    {
        let r = ResolvedEffects { items: Vec::new() };
        assert(r@ =~= Set::<ResolvedEffect>::empty());
        r
    }

    /// Whether the set holds `effect`.
    pub fn contains(&self, effect: &ResolvedEffect) -> (r: bool)
        ensures
            r == self@.contains(*effect),
    {
        let mut i: usize = 0;
        while i < self.items.len()
            invariant
                i <= self.items@.len(),
                forall|k: int| 0 <= k < i ==> self.items@[k] != *effect,
            decreases self.items@.len() - i,
        {
            if self.items[i].same(effect) {
                return true;
            }
            i = i + 1;
        }
        false
    }

    /// Adds `effect` to the set: behind the effects that are there, unless
    /// it is one of them.
    pub fn insert(&mut self, effect: ResolvedEffect)
        ensures
            final(self)@ == old(self)@.insert(effect),
            final(self).listed() == if old(self)@.contains(effect) {
                old(self).listed()
            } else {
                old(self).listed().push(effect)
            },
    {
        if !self.contains(&effect) {
            self.items.push(effect);
            assert forall|e: ResolvedEffect| final(self)@.contains(e) == old(self)@.insert(
                effect,
            ).contains(e) by {
                if old(self).items@.contains(e) {
                    let k = choose|k: int| 0 <= k < old(self).items@.len() && old(self).items@[k] == e;
                    assert(self.items@[k] == e);
                }
                if e == effect {
                    assert(self.items@[self.items@.len() - 1] == e);
                }
            }
        }
        assert(final(self)@ =~= old(self)@.insert(effect));
    }

    /// Adds every effect of `other` to the set.
    pub fn extend(&mut self, other: &ResolvedEffects)
        ensures
            final(self)@ == old(self)@.union(other@),
    {
        let mut i: usize = 0;
        while i < other.items.len()
            invariant
                i <= other.items@.len(),
                forall|e: ResolvedEffect|
                    self@.contains(e) == (old(self)@.contains(e) || exists|k: int|
                        0 <= k < i && other.items@[k] == e),
            decreases other.items@.len() - i,
        {
            let ghost before = self@;
            self.insert(other.items[i]);
            assert forall|e: ResolvedEffect|
                self@.contains(e) == (old(self)@.contains(e) || exists|k: int|
                    0 <= k < i + 1 && other.items@[k] == e) by {
                if e == other.items@[i as int] {
                    assert(0 <= i < i + 1 && other.items@[i as int] == e);
                }
                if before.contains(e) && !old(self)@.contains(e) {
                    let k = choose|k: int| 0 <= k < i && other.items@[k] == e;
                    assert(0 <= k < i + 1 && other.items@[k] == e);
                }
            }
            i = i + 1;
        }
        assert(final(self)@ =~= old(self)@.union(other@));
    }

    /// A copy of the set.
    pub fn clone(&self) -> (r: Self)
        ensures
            r@ == self@,
    {
        let mut out = ResolvedEffects::new();
        out.extend(self);
        assert(out@ =~= self@);
        out
    }

    /// The effects of the set in the order in which they are held.
    pub closed spec fn listed(&self) -> Seq<ResolvedEffect> {
        self.items@
    }

    /// The effects of the set in the order in which they are held.
    pub fn in_order(&self) -> (r: Vec<ResolvedEffect>)
        ensures
            r@ == self.listed(),
    {
        let mut out: Vec<ResolvedEffect> = Vec::new();
        let mut i: usize = 0;
        while i < self.items.len()
            invariant
                i <= self.items@.len(),
                out@ == self.items@.subrange(0, i as int),
            decreases self.items@.len() - i,
        {
            out.push(self.items[i]);
            assert(out@ =~= self.items@.subrange(0, i + 1));
            i = i + 1;
        }
        assert(self.items@.subrange(0, self.items@.len() as int) =~= self.items@);
        out
    }

    /// The effects of the set, each once.
    pub fn to_vec(&self) -> (r: Vec<ResolvedEffect>)
        ensures
            forall|e: ResolvedEffect| r@.contains(e) == self@.contains(e),
            r@.no_duplicates(),
    {
        let mut out: Vec<ResolvedEffect> = Vec::new();
        let mut i: usize = 0;
        while i < self.items.len()
            invariant
                i <= self.items@.len(),
                out@.no_duplicates(),
                forall|e: ResolvedEffect|
                    out@.contains(e) == self.items@.subrange(0, i as int).contains(e),
            decreases self.items@.len() - i,
        {
            let item = self.items[i];
            let ghost before = out@;
            let ghost seen = self.items@.subrange(0, i as int);
            let mut known = false;
            let mut k: usize = 0;
            while k < out.len()
                invariant
                    k <= out@.len(),
                    known == exists|j: int| 0 <= j < k && out@[j] == item,
                decreases out@.len() - k,
            {
                if out[k].same(&item) {
                    known = true;
                }
                k = k + 1;
            }
            if !known {
                out.push(item);
            }
            proof {
                let next = self.items@.subrange(0, i + 1);
                assert(next.drop_last() =~= seen);
                assert(next.last() == item);
                assert forall|e: ResolvedEffect| out@.contains(e) == next.contains(e) by {
                    if next.contains(e) {
                        let j = choose|j: int| 0 <= j < next.len() && next[j] == e;
                        if j < i {
                            assert(seen[j] == e);
                            assert(before.contains(e));
                            let q = choose|q: int| 0 <= q < before.len() && before[q] == e;
                            assert(out@[q] == e);
                        } else if known {
                            let q = choose|q: int| 0 <= q < before.len() && before[q] == item;
                            assert(out@[q] == e);
                        } else {
                            assert(out@[out@.len() - 1] == e);
                        }
                    }
                    if out@.contains(e) {
                        let q = choose|q: int| 0 <= q < out@.len() && out@[q] == e;
                        if q < before.len() {
                            assert(before[q] == e);
                            assert(before.contains(e));
                            assert(seen.contains(e));
                            let j = choose|j: int| 0 <= j < seen.len() && seen[j] == e;
                            assert(next[j] == e);
                        } else {
                            assert(next[i as int] == e);
                        }
                    }
                }
            }
            i = i + 1;
        }
        proof {
            assert(self.items@.subrange(0, self.items@.len() as int) =~= self.items@);
        }
        out
    }
}

/// The union of two access sets, either of which may be unknown: what is
/// unknown counts as empty.
pub fn join(a: Option<ResolvedEffects>, b: Option<ResolvedEffects>) -> (r: Option<ResolvedEffects>)
    ensures
        r.is_some(),
        r.unwrap()@ == effects_or_empty(a).union(effects_or_empty(b)),
{
    let mut a = match a {
        Some(a) => a,
        None => ResolvedEffects::new(),
    };
    match b {
        Some(b) => {
            a.extend(&b);
        },
        None => {
            assert(a@.union(Set::<ResolvedEffect>::empty()) =~= a@);
        },
    }
    Some(a)
}

/// The set, or the empty set where there is none.
pub open spec fn effects_or_empty(a: Option<ResolvedEffects>) -> Set<ResolvedEffect> {
    match a {
        Some(a) => a@,
        None => Set::empty(),
    }
}


/// What an effect asks of the store.
#[derive(Clone, Copy, PartialEq, Eq, Debug)]
pub enum StoreAccess {
    /// Nothing: to test for a component is no access.
    Nothing,
    ReadComponent(GlobalIdx),
    WriteComponent(GlobalIdx),
    ReadResource(GlobalIdx),
    WriteResource(GlobalIdx),
    /// Every component: entities gain or lose components.
    AllComponents,
    /// Every resource: resources come or go.
    AllResources,
}

impl ResolvedEffect {
    /// What the effect asks of the store. A change to what an entity has
    /// or to which resources there are is taken as a write to all
    /// components, or to all resources: it may not be narrowed.
    pub open spec fn spec_store_access(self) -> StoreAccess {
        match self {
            ResolvedEffect::Access { component, kind } => match kind {
                ComponentEffectKind::ReadComponent { .. } => StoreAccess::ReadComponent(component),
                ComponentEffectKind::WriteComponent { .. } => StoreAccess::WriteComponent(
                    component,
                ),
                ComponentEffectKind::ReadResource => StoreAccess::ReadResource(component),
                ComponentEffectKind::WriteResource => StoreAccess::WriteResource(component),
                ComponentEffectKind::HasComponent { .. } => StoreAccess::Nothing,
            },
            ResolvedEffect::StructuralChange { entity } => if entity.is_some() {
                StoreAccess::AllComponents
            } else {
                StoreAccess::AllResources
            },
        }
    }

    #[verifier::when_used_as_spec(spec_store_access)]
    pub fn store_access(self) -> (r: StoreAccess)
        ensures
            r == self.spec_store_access(),
    {
        match self {
            ResolvedEffect::Access { component, kind } => match kind {
                ComponentEffectKind::ReadComponent { .. } => StoreAccess::ReadComponent(component),
                ComponentEffectKind::WriteComponent { .. } => StoreAccess::WriteComponent(
                    component,
                ),
                ComponentEffectKind::ReadResource => StoreAccess::ReadResource(component),
                ComponentEffectKind::WriteResource => StoreAccess::WriteResource(component),
                ComponentEffectKind::HasComponent { .. } => StoreAccess::Nothing,
            },
            ResolvedEffect::StructuralChange { entity } => if entity.is_some() {
                StoreAccess::AllComponents
            } else {
                StoreAccess::AllResources
            },
        }
    }
}


/// What the effects of an access set ask of the store: the access of each
/// effect, and no other.
pub fn store_accesses(effects: &ResolvedEffects) -> (r: Vec<StoreAccess>)
    ensures
        forall|a: StoreAccess|
            r@.contains(a) <==> exists|e: ResolvedEffect|
                effects@.contains(e) && #[trigger] e.spec_store_access() == a,
{
    let all = effects.to_vec();
    let mut out: Vec<StoreAccess> = Vec::new();
    let mut i: usize = 0;
    while i < all.len()
        invariant
            i <= all@.len(),
            out@.len() == i,
            forall|k: int| 0 <= k < i ==> #[trigger] out@[k] == all@[k].spec_store_access(),
        decreases all@.len() - i,
    {
        out.push(all[i].store_access());
        i = i + 1;
    }
    proof {
        assert forall|a: StoreAccess|
            out@.contains(a) <==> exists|e: ResolvedEffect|
                effects@.contains(e) && #[trigger] e.spec_store_access() == a by {
            if out@.contains(a) {
                let k = choose|k: int| 0 <= k < out@.len() && out@[k] == a;
                assert(all@.contains(all@[k]));
                assert(effects@.contains(all@[k]) && all@[k].spec_store_access() == a);
            }
            if exists|e: ResolvedEffect| effects@.contains(e) && #[trigger] e.spec_store_access() == a {
                let e = choose|e: ResolvedEffect|
                    effects@.contains(e) && #[trigger] e.spec_store_access() == a;
                assert(all@.contains(e));
                let k = choose|k: int| 0 <= k < all@.len() && all@[k] == e;
                assert(out@[k] == a);
            }
        }
    }
    out
}

} // verus!

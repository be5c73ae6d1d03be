//! Lexical scopes: which definition a name stands for at a point of the
//! program.

use crate::cache::ResolvedDefinition;
use crate::hir::{IdentModel, Identifier};
use vstd::prelude::*;

verus! {

/// Mathematical model of one scope.
pub type ScopeModel = Map<IdentModel, ResolvedDefinition>;

/// A stack of scopes, the innermost last.
pub struct NameScope {
    scopes: Vec<Vec<(Identifier, ResolvedDefinition)>>,
}

/// The scope that a list of declarations makes: a later declaration of a
/// name replaces an earlier one.
pub open spec fn scope_of(entries: Seq<(Identifier, ResolvedDefinition)>) -> ScopeModel
    decreases entries.len(),
{
    if entries.len() == 0 {
        Map::empty()
    } else {
        scope_of(entries.drop_last()).insert(entries.last().0@, entries.last().1)
    }
}

/// What `name` stands for in the scopes `scopes`: what the innermost scope
/// that declares it says.
pub open spec fn lookup(scopes: Seq<ScopeModel>, name: IdentModel) -> Option<ResolvedDefinition>
    decreases scopes.len(),
{
    if scopes.len() == 0 {
        None
    } else if scopes.last().contains_key(name) {
        Some(scopes.last()[name])
    } else {
        lookup(scopes.drop_last(), name)
    }
}

/// All that the scopes declare, an inner scope replacing what an outer one
/// says of the same name.
pub open spec fn flatten(scopes: Seq<ScopeModel>) -> ScopeModel
    decreases scopes.len(),
{
    if scopes.len() == 0 {
        Map::empty()
    } else {
        flatten(scopes.drop_last()).union_prefer_right(scopes.last())
    }
}

impl View for NameScope {
    type V = Seq<ScopeModel>;

    closed spec fn view(&self) -> Seq<ScopeModel> {
        Seq::new(self.scopes@.len(), |i: int| scope_of(self.scopes@[i]@))
    }
}

/// What `name` stands for in one scope, given by its declarations.
fn find(entries: &Vec<(Identifier, ResolvedDefinition)>, name: &Identifier) -> (r: Option<
    ResolvedDefinition,
>)
    ensures
        r == if scope_of(entries@).contains_key(name@) {
            Some(scope_of(entries@)[name@])
        } else {
            None
        },
{
    let mut i: usize = entries.len();
    assert(entries@.subrange(0, i as int) =~= entries@);
    while i > 0
        invariant
            i <= entries@.len(),
            scope_of(entries@).contains_key(name@) == scope_of(
                entries@.subrange(0, i as int),
            ).contains_key(name@),
            scope_of(entries@).contains_key(name@) ==> scope_of(entries@)[name@] == scope_of(
                entries@.subrange(0, i as int),
            )[name@],
        decreases i,
    {
        proof {
            assert(entries@.subrange(0, i as int).drop_last() =~= entries@.subrange(0, i - 1));
            assert(entries@.subrange(0, i as int).last() == entries@[i - 1]);
        }
        if entries[i - 1].0.same(name) {
            return Some(entries[i - 1].1);
        }
        i = i - 1;
    }
    assert(entries@.subrange(0, 0) =~= Seq::<(Identifier, ResolvedDefinition)>::empty());
    None
}

impl NameScope {
    /// One scope, which declares nothing.
    pub fn new() -> (r: Self)
        ensures
            r@ == seq![Map::<IdentModel, ResolvedDefinition>::empty()],
    {
        let mut scopes: Vec<Vec<(Identifier, ResolvedDefinition)>> = Vec::new();
        scopes.push(Vec::new());
        let r = NameScope { scopes };
        assert(r@ =~= seq![Map::<IdentModel, ResolvedDefinition>::empty()]);
        r
    }

    /// The number of open scopes.
    pub fn depth(&self) -> (r: usize)
        ensures
            r == self@.len(),
    {
        self.scopes.len()
    }

    /// Opens a scope inside the innermost one.
    pub fn push_scope(&mut self)
        ensures
            final(self)@ == old(self)@.push(Map::<IdentModel, ResolvedDefinition>::empty()),
    {
        self.scopes.push(Vec::new());
        assert(final(self)@ =~= old(self)@.push(Map::<IdentModel, ResolvedDefinition>::empty()));
    }

    /// Closes the innermost scope, if there is one.
    pub fn pop_scope(&mut self)
        ensures
            final(self)@ == if old(self)@.len() > 0 {
                old(self)@.drop_last()
            } else {
                old(self)@
            },
    {
        self.scopes.pop();
        proof {
            if old(self)@.len() > 0 {
                assert(final(self)@ =~= old(self)@.drop_last());
            } else {
                assert(final(self)@ =~= old(self)@);
            }
        }
    }

    /// Declares `name` in the innermost scope. There must be a scope.
    pub fn declare(&mut self, name: Identifier, node: ResolvedDefinition)
        requires
            old(self)@.len() > 0,
        ensures
            final(self)@ == old(self)@.update(
                old(self)@.len() - 1,
                old(self)@.last().insert(name@, node),
            ),
    {
        let mut scope = match self.scopes.pop() {
            Some(scope) => scope,
            None => Vec::new(),
        };
        let ghost before = scope@;
        scope.push((name, node));
        assert(scope@.drop_last() =~= before);
        self.scopes.push(scope);
        assert(final(self)@ =~= old(self)@.update(
            old(self)@.len() - 1,
            old(self)@.last().insert(name@, node),
        ));
    }

    /// What `name` stands for: what the innermost scope that declares it
    /// says.
    pub fn resolve(&self, name: &Identifier) -> (r: Option<ResolvedDefinition>)
        ensures
            r == lookup(self@, name@),
    {
        let mut i: usize = self.scopes.len();
        assert(self@.subrange(0, i as int) =~= self@);
        while i > 0
            invariant
                i <= self.scopes@.len(),
                lookup(self@, name@) == lookup(self@.subrange(0, i as int), name@),
            decreases i,
        {
            proof {
                assert(self@.subrange(0, i as int).drop_last() =~= self@.subrange(0, i - 1));
                assert(self@.subrange(0, i as int).last() == scope_of(self.scopes@[i - 1]@));
            }
            match find(&self.scopes[i - 1], name) {
                Some(found) => {
                    return Some(found);
                },
                None => {},
            }
            i = i - 1;
        }
        assert(self@.subrange(0, 0) =~= Seq::<ScopeModel>::empty());
        None
    }

    /// All declarations, from the outermost scope to the innermost and in
    /// each in the order in which they were made: a later one of a name
    /// replaces an earlier one.
    pub fn into_ident_map(self) -> (r: Vec<(Identifier, ResolvedDefinition)>)
        ensures
            scope_of(r@) == flatten(self@),
    {
        let mut out: Vec<(Identifier, ResolvedDefinition)> = Vec::new();
        let mut i: usize = 0;
        assert(self@.subrange(0, 0) =~= Seq::<ScopeModel>::empty());
        while i < self.scopes.len()
            invariant
                i <= self.scopes@.len(),
                scope_of(out@) == flatten(self@.subrange(0, i as int)),
            decreases self.scopes@.len() - i,
        {
            let scope = &self.scopes[i];
            let ghost base = scope_of(out@);
            let mut j: usize = 0;
            assert(scope@.subrange(0, 0) =~= Seq::<(Identifier, ResolvedDefinition)>::empty());
            assert(base.union_prefer_right(Map::<IdentModel, ResolvedDefinition>::empty())
                =~= base);
            while j < scope.len()
                invariant
                    j <= scope@.len(),
                    scope_of(out@) == base.union_prefer_right(
                        scope_of(scope@.subrange(0, j as int)),
                    ),
                decreases scope@.len() - j,
            {
                let ghost before = out@;
                proof {
                    assert(scope@.subrange(0, j + 1).drop_last() =~= scope@.subrange(0, j as int));
                    assert(scope@.subrange(0, j + 1).last() == scope@[j as int]);
                }
                let name = scope[j].0.clone();
                out.push((name, scope[j].1));
                proof {
                    assert(out@.drop_last() =~= before);
                    assert(scope_of(out@) =~= base.union_prefer_right(
                        scope_of(scope@.subrange(0, j + 1)),
                    ));
                }
                j = j + 1;
            }
            proof {
                assert(scope@.subrange(0, scope@.len() as int) =~= scope@);
                assert(self@.subrange(0, i + 1).drop_last() =~= self@.subrange(0, i as int));
                assert(self@.subrange(0, i + 1).last() == scope_of(scope@));
            }
            i = i + 1;
        }
        assert(self@.subrange(0, self@.len() as int) =~= self@);
        out
    }
}

/// A name declared in a block is unknown after the block, and what the
/// name stood for before the block it stands for again: opening a scope,
/// declaring `name` in it and closing it leaves the scopes as they were.
/// Inside the block the name stands for what the block declared.
pub proof fn lemma_block_scoping(
    scopes: Seq<ScopeModel>,
    name: IdentModel,
    node: ResolvedDefinition,
)
    ensures
        ({
            let opened = scopes.push(Map::<IdentModel, ResolvedDefinition>::empty());
            let inside = opened.update(opened.len() - 1, opened.last().insert(name, node));
            let closed = inside.drop_last();
            &&& lookup(inside, name) == Some(node)
            &&& closed == scopes
            &&& lookup(closed, name) == lookup(scopes, name)
        }),
{
    let opened = scopes.push(Map::<IdentModel, ResolvedDefinition>::empty());
    let inside = opened.update(opened.len() - 1, opened.last().insert(name, node));
    assert(inside.drop_last() =~= scopes);
}

/// A declaration in an inner scope hides one of the same name further out
/// only: a name that the inner scope does not declare stands for what it
/// stands for outside.
pub proof fn lemma_inner_scope_shadows(
    scopes: Seq<ScopeModel>,
    inner: ScopeModel,
    name: IdentModel,
)
    ensures
        lookup(scopes.push(inner), name) == if inner.contains_key(name) {
            Some(inner[name])
        } else {
            lookup(scopes, name)
        },
{
    assert(scopes.push(inner).drop_last() =~= scopes);
}

} // verus!

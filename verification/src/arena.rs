//! The arena in which a module keeps its nodes.

use crate::hir::{NodeIdx, Node};
use crate::lowering::Span;
use vstd::prelude::*;

verus! {

#[verifier::external_type_specification]
#[verifier::external_body]
#[verifier::reject_recursive_types(T)]
pub struct ExIdx<T>(la_arena::Idx<T>);

#[verifier::external_type_specification]
#[verifier::external_body]
#[verifier::reject_recursive_types(IDX)]
#[verifier::reject_recursive_types(V)]
pub struct ExArenaMap<IDX, V>(la_arena::ArenaMap<IDX, V>);

/// The map in which a module keeps the source ranges of its nodes.
pub type SpanMap = la_arena::ArenaMap<la_arena::Idx<Node>, Span>;

/// The source ranges that a span map holds, by the index of the node.
pub uninterp spec fn span_entries(map: la_arena::ArenaMap<la_arena::Idx<Node>, Span>) -> Map<
    NodeIdx,
    Span,
>;

/// The source ranges of the first `n` nodes, each where the map has one.
pub open spec fn spans_model(entries: Map<NodeIdx, Span>, n: nat) -> Seq<Option<Span>> {
    Seq::new(
        n,
        |i: int|
            if entries.contains_key(i as NodeIdx) {
                Some(entries[i as NodeIdx])
            } else {
                None
            },
    )
}

/// `la_arena::ArenaMap::new`: a map that holds nothing.
#[verifier::external_body]
pub(crate) fn spans_new() -> (r: SpanMap)
    ensures
        forall|k: NodeIdx| !span_entries(r).contains_key(k),
{
    la_arena::ArenaMap::new()
}

/// `la_arena::ArenaMap::insert`: lets `idx` stand for `span`, in place of
/// what it stood for, and changes nothing else. The map makes room up to
/// the index, which must be below `u32::MAX` for that.
#[verifier::external_body]
pub(crate) fn spans_insert(map: &mut SpanMap, idx: NodeIdx, span: Span)
    requires
        idx < u32::MAX,
    ensures
        span_entries(*final(map)) == span_entries(*old(map)).insert(idx, span),
{
    map.insert(la_arena::Idx::from_raw(la_arena::RawIdx::from_u32(idx)), span);
}

/// `la_arena::ArenaMap::get`: what `idx` stands for, if anything.
#[verifier::external_body]
pub(crate) fn spans_get(map: &SpanMap, idx: NodeIdx) -> (r: Option<Span>)
    ensures
        r == if span_entries(*map).contains_key(idx) {
            Some(span_entries(*map)[idx])
        } else {
            None
        },
{
    map.get(la_arena::Idx::from_raw(la_arena::RawIdx::from_u32(idx))).copied()
}

#[verifier::external_type_specification]
#[verifier::external_body]
#[verifier::reject_recursive_types(T)]
pub struct ExArena<T>(la_arena::Arena<T>);

/// The nodes that an arena holds, in the order in which they were
/// allocated.
pub uninterp spec fn arena_nodes(arena: la_arena::Arena<Node>) -> Seq<Node>;

/// `la_arena::Arena::new`: an arena that holds nothing.
#[verifier::external_body]
pub(crate) fn arena_new() -> (r: la_arena::Arena<Node>)
    ensures
        arena_nodes(r) == Seq::<Node>::empty(),
{
    la_arena::Arena::new()
}

/// `la_arena::Arena::len`: the number of nodes allocated.
#[verifier::external_body]
pub(crate) fn arena_len(arena: &la_arena::Arena<Node>) -> (r: usize)
    ensures
        r == arena_nodes(*arena).len(),
{
    arena.len()
}

/// `la_arena::Arena::alloc`: puts `node` behind the nodes that the arena
/// holds, and returns its index, which is the number of nodes that were
/// there. The arena counts in `u32`, so it must hold no more than
/// `u32::MAX` nodes before.
#[verifier::external_body]
pub(crate) fn arena_alloc(arena: &mut la_arena::Arena<Node>, node: Node) -> (r: NodeIdx)
    requires
        arena_nodes(*old(arena)).len() <= u32::MAX,
    ensures
        arena_nodes(*final(arena)) == arena_nodes(*old(arena)).push(node),
        r == arena_nodes(*old(arena)).len(),
{
    arena.alloc(node).into_raw().into_u32()
}

/// Indexing of `la_arena::Arena`: the node at index `idx`, which must have
/// been allocated.
#[verifier::external_body]
pub(crate) fn arena_get(arena: &la_arena::Arena<Node>, idx: NodeIdx) -> (r: &Node)
    requires
        idx < arena_nodes(*arena).len(),
    ensures
        *r == arena_nodes(*arena)[idx as int],
{
    &arena[la_arena::Idx::from_raw(la_arena::RawIdx::from_u32(idx))]
}

} // verus!

//! What the passes after lowering work out, keyed by the address of the
//! node that it is about.

use crate::hir::GlobalIdx;
use crate::report::{ModuleID, Report};
use crate::resolved_effect::ResolvedEffects;
use crate::resolved_type::ResolvedType;
use std::collections::HashMap;
use std::marker::PhantomData;
use vstd::prelude::*;

verus! {

broadcast use vstd::std_specs::hash::group_hash_axioms;

/// A key of a [`GlobalMap`]: a value that a number stands for, one for
/// one.
pub trait MapKey: Sized {
    /// The number that stands for the key.
    spec fn code(&self) -> u128;

    fn encode(&self) -> (r: u128)
        ensures
            r == self.code(),
    ;

    /// Two keys with the same number are the same key.
    proof fn lemma_code_injective(a: &Self, b: &Self)
        requires
            a.code() == b.code(),
        ensures
            a == b,
    ;
}

impl MapKey for GlobalIdx {
    open spec fn code(&self) -> u128 {
        (self.0 as u128 * 0x1_0000_0000 + self.1 as u128) as u128
    }

    fn encode(&self) -> (r: u128) {
        (self.0 as u128) * 0x1_0000_0000 + (self.1 as u128)
    }

    proof fn lemma_code_injective(a: &Self, b: &Self) {
        assert(a.0 == b.0);
    }
}

impl MapKey for usize {
    open spec fn code(&self) -> u128 {
        *self as u128
    }

    fn encode(&self) -> (r: u128) {
        *self as u128
    }

    proof fn lemma_code_injective(a: &Self, b: &Self) {
    }
}

/// `std::collections::HashMap::get_mut`: a mutable reference to the value
/// of `key`, if the map has one. What is written through the reference is
/// the value of `key` afterwards; nothing else changes.
#[verifier::external_body]
fn hash_map_get_mut<'a, V>(map: &'a mut HashMap<u128, V>, key: u128) -> (r: Option<&'a mut V>)
    ensures
        match r {
            Some(v) => old(map)@.contains_key(key) && *v == old(map)@[key] && final(map)@ == old(
                map,
            )@.insert(key, *final(v)),
            None => !old(map)@.contains_key(key) && final(map)@ == old(map)@,
        },
{
    map.get_mut(&key)
}

/// A map from the addresses of nodes, or from keys of another kind, to
/// values.
pub struct GlobalMap<V, K = GlobalIdx> {
    map: HashMap<u128, V>,
    key: PhantomData<K>,
}

impl<V, K: MapKey> View for GlobalMap<V, K> {
    type V = Map<K, V>;

    closed spec fn view(&self) -> Map<K, V> {
        decode(self.map@)
    }
}

/// The map over keys that a map over their numbers stands for.
pub closed spec fn decode<V, K: MapKey>(map: Map<u128, V>) -> Map<K, V> {
    Map::new(|k: K| map.contains_key(k.code()), |k: K| map[k.code()])
}

proof fn lemma_decode_insert<V, K: MapKey>(map: Map<u128, V>, idx: K)
    ensures
        forall|v: V| #[trigger]
            decode::<V, K>(map.insert(idx.code(), v)) == decode::<V, K>(map).insert(idx, v),
        decode::<V, K>(map).contains_key(idx) == map.contains_key(idx.code()),
        map.contains_key(idx.code()) ==> decode::<V, K>(map)[idx] == map[idx.code()],
{
    assert forall|v: V| #[trigger]
        decode::<V, K>(map.insert(idx.code(), v)) == decode::<V, K>(map).insert(idx, v) by {
        let a = decode::<V, K>(map.insert(idx.code(), v));
        let b = decode::<V, K>(map).insert(idx, v);
        assert forall|k: K| #[trigger] a.contains_key(k) == b.contains_key(k) by {
            if k.code() == idx.code() {
                K::lemma_code_injective(&k, &idx);
            }
        }
        assert forall|k: K| a.contains_key(k) implies #[trigger] a[k] == b[k] by {
            if k.code() == idx.code() {
                K::lemma_code_injective(&k, &idx);
            }
        }
        assert(a =~= b);
    }
}

impl<V, K: MapKey> GlobalMap<V, K> {
    /// The empty map.
    pub fn new() -> (r: Self)
        ensures
            r@ == Map::<K, V>::empty(),
    {
        let r = GlobalMap { map: HashMap::new(), key: PhantomData };
        assert(r@ =~= Map::<K, V>::empty());
        r
    }

    /// Lets `idx` stand for `value`.
    pub fn set(&mut self, idx: K, value: V)
        ensures
            final(self)@ == old(self)@.insert(idx, value),
    {
        let code = idx.encode();
        self.map.insert(code, value);
        proof {
            assert forall|k: K| #[trigger]
                final(self)@.contains_key(k) == old(self)@.insert(idx, value).contains_key(k) by {
                if k.code() == idx.code() {
                    K::lemma_code_injective(&k, &idx);
                }
            }
            assert forall|k: K| final(self)@.contains_key(k) implies #[trigger] final(self)@[k]
                == old(self)@.insert(idx, value)[k] by {
                if k.code() == idx.code() {
                    K::lemma_code_injective(&k, &idx);
                }
            }
            assert(final(self)@ =~= old(self)@.insert(idx, value));
        }
    }

    /// What `idx` stands for, if anything.
    pub fn get(&self, idx: K) -> (r: Option<V>) where V: Copy
        ensures
            r == if self@.contains_key(idx) {
                Some(self@[idx])
            } else {
                None
            },
    {
        let code = idx.encode();
        match self.map.get(&code) {
            Some(v) => Some(*v),
            None => None,
        }
    }

    /// What `idx` stands for, if anything.
    pub fn get_ref(&self, idx: K) -> (r: Option<&V>)
        ensures
            match r {
                Some(v) => self@.contains_key(idx) && *v == self@[idx],
                None => !self@.contains_key(idx),
            },
    {
        let code = idx.encode();
        self.map.get(&code)
    }

    /// A mutable reference to what `idx` stands for, if anything. What is
    /// written through it is what `idx` stands for afterwards.
    pub fn get_mut(&mut self, idx: K) -> (r: Option<&mut V>)
        ensures
            match r {
                Some(v) => old(self)@.contains_key(idx) && *v == old(self)@[idx] && final(self)@
                    == old(self)@.insert(idx, *final(v)),
                None => !old(self)@.contains_key(idx) && final(self)@ == old(self)@,
            },
    {
        let code = idx.encode();
        proof {
            lemma_decode_insert::<V, K>(self.map@, idx);
        }
        hash_map_get_mut(&mut self.map, code)
    }

    /// Whether `idx` stands for anything.
    pub fn contains(&self, idx: K) -> (r: bool)
        ensures
            r == self@.contains_key(idx),
    {
        let code = idx.encode();
        self.map.contains_key(&code)
    }

    /// Takes out what `idx` stands for, if anything.
    pub fn take(&mut self, idx: K) -> (r: Option<V>)
        ensures
            final(self)@ == old(self)@.remove(idx),
            r == if old(self)@.contains_key(idx) {
                Some(old(self)@[idx])
            } else {
                None
            },
    {
        let code = idx.encode();
        let r = self.map.remove(&code);
        proof {
            assert forall|k: K| #[trigger]
                final(self)@.contains_key(k) == old(self)@.remove(idx).contains_key(k) by {
                if k.code() == idx.code() {
                    K::lemma_code_injective(&k, &idx);
                }
            }
            assert(final(self)@ =~= old(self)@.remove(idx));
        }
        r
    }
}

impl<V> GlobalMap<Vec<V>, ModuleID> {
    /// Puts `value` behind the values that `idx` stands for.
    pub fn push(&mut self, idx: ModuleID, value: V)
        ensures
            values_of(final(self)@, idx) == values_of(old(self)@, idx).push(value),
            forall|other: ModuleID|
                other != idx ==> values_of(final(self)@, other) == values_of(old(self)@, other),
    {
        let mut values = match self.take(idx) {
            Some(values) => values,
            None => Vec::new(),
        };
        values.push(value);
        self.set(idx, values);
    }
}

impl<V> GlobalMap<Vec<V>, ModuleID> {
    /// Puts `values` behind the values that `idx` stands for.
    pub fn append(&mut self, idx: ModuleID, values: Vec<V>)
        ensures
            values_of(final(self)@, idx) == values_of(old(self)@, idx) + values@,
            forall|other: ModuleID|
                other != idx ==> values_of(final(self)@, other) == values_of(old(self)@, other),
    {
        let mut all = match self.take(idx) {
            Some(all) => all,
            None => Vec::new(),
        };
        let mut values = values;
        all.append(&mut values);
        self.set(idx, all);
    }
}

/// The values that `idx` stands for in `map`; none where it stands for
/// nothing. Only the values matter here, so the result is their sequence.
pub open spec fn values_of<V>(map: Map<ModuleID, Vec<V>>, idx: ModuleID) -> Seq<V> {
    if map.contains_key(idx) {
        map[idx]@
    } else {
        Seq::empty()
    }
}

/// A map from the addresses of nodes to values, for what almost every node
/// has.
pub struct DenseGlobalMap<V> {
    map: GlobalMap<V, GlobalIdx>,
}

impl<V> View for DenseGlobalMap<V> {
    type V = Map<GlobalIdx, V>;

    closed spec fn view(&self) -> Map<GlobalIdx, V> {
        self.map@
    }
}

impl<V> DenseGlobalMap<V> {
    /// The empty map.
    pub fn new() -> (r: Self)
        ensures
            r@ == Map::<GlobalIdx, V>::empty(),
    {
        DenseGlobalMap { map: GlobalMap::new() }
    }

    /// Lets `idx` stand for `value`.
    pub fn set(&mut self, idx: GlobalIdx, value: V)
        ensures
            final(self)@ == old(self)@.insert(idx, value),
    {
        self.map.set(idx, value);
    }

    /// What `idx` stands for, if anything.
    pub fn get(&self, idx: GlobalIdx) -> (r: Option<V>) where V: Copy
        ensures
            r == if self@.contains_key(idx) {
                Some(self@[idx])
            } else {
                None
            },
    {
        self.map.get(idx)
    }

    /// What `idx` stands for, if anything.
    pub fn get_ref(&self, idx: GlobalIdx) -> (r: Option<&V>)
        ensures
            match r {
                Some(v) => self@.contains_key(idx) && *v == self@[idx],
                None => !self@.contains_key(idx),
            },
    {
        self.map.get_ref(idx)
    }
}

/// The definition that a name stands for.
#[derive(Debug, PartialEq, Eq, Hash, Clone, Copy)]
pub struct ResolvedDefinition(pub GlobalIdx);

impl ResolvedDefinition {
    pub fn definition(self) -> (r: GlobalIdx)
        ensures
            r == self.0,
    {
        self.0
    }
}

pub type NameMap = GlobalMap<ResolvedDefinition>;

pub type TypeMap = DenseGlobalMap<ResolvedType>;

pub type EffectMap = GlobalMap<ResolvedEffects>;

pub type ErrorMap = GlobalMap<Vec<Report>, ModuleID>;

/// Everything that one compilation works out. It is made anew for each
/// compilation.
pub struct Cache {
    pub errors: ErrorMap,
    pub names: NameMap,
    pub types: TypeMap,
    pub effects: EffectMap,
}

impl Cache {
    /// A cache that holds nothing.
    pub fn new() -> (r: Self)
        ensures
            r.errors@ == Map::<ModuleID, Vec<Report>>::empty(),
            r.names@ == Map::<GlobalIdx, ResolvedDefinition>::empty(),
            r.types@ == Map::<GlobalIdx, ResolvedType>::empty(),
            r.effects@ == Map::<GlobalIdx, ResolvedEffects>::empty(),
    {
        Cache {
            errors: GlobalMap::new(),
            names: GlobalMap::new(),
            types: DenseGlobalMap::new(),
            effects: GlobalMap::new(),
        }
    }
}

} // verus!

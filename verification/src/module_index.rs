//! Modules and their registry.

use crate::arena::{
    arena_alloc, arena_get, arena_len, arena_new, arena_nodes, span_entries, spans_get, spans_model,
    spans_new, SpanMap,
};
use crate::cache::Cache;
use crate::hir::{wf_nodes, GlobalIdx, IdentModel, Identifier, NodeIdx, Node, System};
use crate::lowering::{Ir, Span};
use crate::ast;
use crate::cst;
use crate::lower;
use crate::lower::{fits, lowered, LowerError};
use crate::report::{ModuleID, Report};
use vstd::prelude::*;

verus! {

/// One module: its source, its nodes with their spans, its top-level
/// items, and the diagnostics of parsing and lowering it.
pub struct Module {
    pub source: String,
    pub nodes: la_arena::Arena<Node>,
    pub spans: SpanMap,
    pub top_level: Vec<NodeIdx>,
    pub parser_errors: Vec<Report>,
}

/// The name under which a top-level node is known to other code, if it
/// has one: components, resources, named systems and builtins have.
pub open spec fn top_level_name(node: Node) -> Option<IdentModel> {
    match node {
        Node::Component(f) | Node::Resource(f) => Some(IdentModel::Name(f.ident@)),
        Node::BuiltinType { identifier, .. } | Node::BuiltinFunction { identifier, .. } => Some(
            identifier@,
        ),
        Node::System(System { ident: Some(ident), .. }) => Some(IdentModel::Name(ident@)),
        _ => None,
    }
}

/// The names of the nodes at `ids`, each with its index, in order; a node
/// without a name is left out.
pub open spec fn names_of(nodes: Seq<Node>, ids: Seq<NodeIdx>) -> Seq<(IdentModel, NodeIdx)>
    decreases ids.len(),
{
    if ids.len() == 0 {
        Seq::empty()
    } else {
        let rest = names_of(nodes, ids.drop_last());
        let id = ids.last();
        if id < nodes.len() && top_level_name(nodes[id as int]).is_some() {
            rest.push((top_level_name(nodes[id as int]).unwrap(), id))
        } else {
            rest
        }
    }
}

/// The models of a list of names.
pub open spec fn names_model(names: Seq<(Identifier, NodeIdx)>) -> Seq<(IdentModel, NodeIdx)> {
    Seq::new(names.len(), |i: int| (names[i].0@, names[i].1))
}

impl Module {
    /// The nodes and their spans.
    pub open spec fn ir(&self) -> Ir {
        Ir {
            nodes: arena_nodes(self.nodes),
            spans: spans_model(span_entries(self.spans), arena_nodes(self.nodes).len()),
        }
    }

    /// Every node refers only to nodes before it, only nodes have a span,
    /// and the top-level items are nodes of the module.
    pub open spec fn wf(&self) -> bool {
        &&& forall|k: NodeIdx|
            span_entries(self.spans).contains_key(k) ==> k < arena_nodes(self.nodes).len()
        &&& self.ir().nodes.len() <= u32::MAX
        &&& wf_nodes(self.ir().nodes)
        &&& forall|k: int| 0 <= k < self.top_level@.len() ==> #[trigger] self.top_level@[k] < self.ir().len()
    }

    /// A module without source and without nodes.
    pub fn empty() -> (r: Module)
        ensures
            r.wf(),
            r.ir().nodes.len() == 0,
            r.top_level@.len() == 0,
            r.parser_errors@.len() == 0,
    {
        Module {
            source: String::new(),
            nodes: arena_new(),
            spans: spans_new(),
            top_level: Vec::new(),
            parser_errors: Vec::new(),
        }
    }

    /// Parses and lowers the source of module `module_id`.
    pub fn from_source(source: &str, module_id: ModuleID) -> (r: Result<Module, LowerError>)
        ensures
            match r {
                Ok(m) => lowered(
                    m,
                    cst::parse_input(source, module_id).tree(),
                    source@,
                    module_id,
                    cst::parse_input(source, module_id).errors(),
                ),
                Err(e) => e == LowerError::TooManyNodes,
            },
            r.is_ok() == fits(cst::parse_input(source, module_id).tree()),
    {
        let (tree, errors) = cst::run(source, module_id);
        match ast::run(&tree) {
            Some(root) => lower::run(root, source.to_owned(), module_id, errors),
            None => Err(LowerError::TooManyNodes),
        }
    }

    /// The number of nodes.
    pub fn len(&self) -> (r: usize)
        ensures
            r == self.ir().len(),
    {
        arena_len(&self.nodes)
    }

    /// The node at `idx`.
    pub fn get_node(&self, idx: NodeIdx) -> (r: &Node)
        requires
            idx < self.ir().len(),
        ensures
            *r == self.ir().nodes[idx as int],
    {
        arena_get(&self.nodes, idx)
    }

    /// The node at `idx`, if there is one.
    pub fn node(&self, idx: NodeIdx) -> (r: Option<&Node>)
        ensures
            match r {
                Some(n) => idx < self.ir().len() && *n == self.ir().nodes[idx as int],
                None => idx >= self.ir().len(),
            },
    {
        if (idx as usize) < arena_len(&self.nodes) {
            Some(arena_get(&self.nodes, idx))
        } else {
            None
        }
    }

    /// The source range of the node at `idx`, if it has one.
    pub fn span(&self, idx: NodeIdx) -> (r: Option<Span>)
        ensures
            r == if span_entries(self.spans).contains_key(idx) {
                Some(span_entries(self.spans)[idx])
            } else {
                None
            },
            self.wf() ==> r == if idx < self.ir().spans.len() {
                self.ir().spans[idx as int]
            } else {
                None
            },
    {
        spans_get(&self.spans, idx)
    }

    /// Puts `node` behind the nodes of the module and among its top-level
    /// items. Returns `false`, and changes nothing, where the module holds
    /// as many nodes as an index can tell apart.
    pub fn alloc_top_level(&mut self, node: Node) -> (r: bool)
        requires
            old(self).wf(),
            node.below(old(self).ir().len()),
        ensures
            final(self).wf(),
            r == (old(self).ir().len() < u32::MAX),
            r ==> {
                &&& final(self).ir().nodes == old(self).ir().nodes.push(node)
                &&& final(self).ir().spans == old(self).ir().spans.push(None)
                &&& final(self).top_level@ == old(self).top_level@.push(
                    old(self).ir().len() as NodeIdx,
                )
            },
            !r ==> *final(self) == *old(self),
            final(self).parser_errors == old(self).parser_errors,
            final(self).source == old(self).source,
    {
        if arena_len(&self.nodes) >= u32::MAX as usize {
            return false;
        }
        let id = arena_alloc(&mut self.nodes, node);
        self.top_level.push(id);
        assert(final(self).ir().spans =~= old(self).ir().spans.push(None));
        true
    }

    /// The indices of the top-level items, in order.
    pub fn top_level_ids(&self) -> (r: Vec<NodeIdx>)
        ensures
            r@ == self.top_level@,
    {
        let mut out: Vec<NodeIdx> = Vec::new();
        let mut i: usize = 0;
        while i < self.top_level.len()
            invariant
                i <= self.top_level@.len(),
                out@ == self.top_level@.subrange(0, i as int),
            decreases self.top_level@.len() - i,
        {
            out.push(self.top_level[i]);
            assert(out@ =~= self.top_level@.subrange(0, i + 1));
            i = i + 1;
        }
        assert(out@ =~= self.top_level@);
        out
    }

    /// The names of the top-level items that have one, each with the index
    /// of its node, in the order of the items. Of two items of one name the
    /// later is the one that the name stands for.
    pub fn top_level_names(&self) -> (r: Vec<(Identifier, NodeIdx)>)
        requires
            self.wf(),
        ensures
            names_model(r@) == names_of(self.ir().nodes, self.top_level@),
    {
        let mut out: Vec<(Identifier, NodeIdx)> = Vec::new();
        let mut i: usize = 0;
        let ghost nodes = self.ir().nodes;
        assert(self.top_level@.subrange(0, 0) =~= Seq::<NodeIdx>::empty());
        assert(names_model(out@) =~= Seq::<(IdentModel, NodeIdx)>::empty());
        while i < self.top_level.len()
            invariant
                i <= self.top_level@.len(),
                self.wf(),
                nodes == self.ir().nodes,
                names_model(out@) == names_of(nodes, self.top_level@.subrange(0, i as int)),
            decreases self.top_level@.len() - i,
        {
            let id = self.top_level[i];
            proof {
                assert(self.top_level@.subrange(0, i + 1).drop_last() =~= self.top_level@.subrange(
                    0,
                    i as int,
                ));
                assert(self.top_level@.subrange(0, i + 1).last() == id);
            }
            let name = match self.get_node(id) {
                Node::Component(f) => Some(f.identifier()),
                Node::Resource(f) => Some(f.identifier()),
                Node::BuiltinType { identifier, .. } => Some(identifier.clone()),
                Node::BuiltinFunction { identifier, .. } => Some(identifier.clone()),
                Node::System(System { ident: Some(ident), .. }) => Some(
                    Identifier::Name(ident.clone()),
                ),
                _ => None,
            };
            match name {
                Some(name) => {
                    proof {
                        assert(names_model(out@.push((name, id))) =~= names_model(out@).push(
                            (name@, id),
                        ));
                    }
                    out.push((name, id));
                },
                None => {},
            }
            i = i + 1;
        }
        assert(self.top_level@.subrange(0, self.top_level@.len() as int) =~= self.top_level@);
        out
    }
}


/// Mathematical model of the modules of a compilation: the nodes of each
/// with their spans, the top-level items of each, and the paths under which
/// modules were registered, each with the module it was registered for.
pub struct World {
    pub modules: Seq<Ir>,
    pub tops: Seq<Seq<NodeIdx>>,
    pub paths: Seq<(Seq<char>, ModuleID)>,
}

impl World {
    /// Whether `g` is the address of a node.
    pub open spec fn has(self, g: GlobalIdx) -> bool {
        g.0 < self.modules.len() && g.1 < self.modules[g.0 as int].nodes.len()
    }

    /// The node at `g`.
    pub open spec fn node(self, g: GlobalIdx) -> Node {
        self.modules[g.0 as int].nodes[g.1 as int]
    }

    /// The source range of the node at `g`; where it has none, the empty
    /// range at the start of the source.
    pub open spec fn span(self, g: GlobalIdx) -> Span {
        if g.0 < self.modules.len() && g.1 < self.modules[g.0 as int].spans.len() {
            match self.modules[g.0 as int].spans[g.1 as int] {
                Some(span) => span,
                None => (0, 0),
            }
        } else {
            (0, 0)
        }
    }

    /// The module that `path` stands for: the one registered last for it.
    pub open spec fn module_of(self, path: Seq<char>) -> Option<ModuleID> {
        find_path(self.paths, path)
    }

    /// The names of the top-level items of module `m`, each with its index.
    pub open spec fn names(self, m: ModuleID) -> Seq<(IdentModel, NodeIdx)> {
        names_of(self.modules[m as int].nodes, self.tops[m as int])
    }

    /// Every module is of the form that lowering makes.
    pub open spec fn wf(self) -> bool {
        &&& self.tops.len() == self.modules.len()
        &&& forall|m: int|
            0 <= m < self.modules.len() ==> {
                &&& (#[trigger] self.modules[m]).spans.len() == self.modules[m].nodes.len()
                &&& self.modules[m].nodes.len() <= u32::MAX
                &&& wf_nodes(self.modules[m].nodes)
                &&& forall|k: int|
                    0 <= k < self.tops[m].len() ==> #[trigger] self.tops[m][k]
                        < self.modules[m].nodes.len()
            }
    }
}

/// The module that was registered last for `path`.
pub open spec fn find_path(paths: Seq<(Seq<char>, ModuleID)>, path: Seq<char>) -> Option<ModuleID>
    decreases paths.len(),
{
    if paths.len() == 0 {
        None
    } else if paths.last().0 == path {
        Some(paths.last().1)
    } else {
        find_path(paths.drop_last(), path)
    }
}

/// The modules of a compilation, each known by the path under which it was
/// registered.
pub struct ModuleCollection {
    paths: Vec<(String, ModuleID)>,
    modules: Vec<Module>,
}

impl View for ModuleCollection {
    type V = World;

    closed spec fn view(&self) -> World {
        World {
            modules: Seq::new(self.modules@.len(), |m: int| self.modules@[m].ir()),
            tops: Seq::new(self.modules@.len(), |m: int| self.modules@[m].top_level@),
            paths: Seq::new(self.paths@.len(), |i: int| (self.paths@[i].0@, self.paths@[i].1)),
        }
    }
}

impl ModuleCollection {
    #[verifier::type_invariant]
    spec fn inv(&self) -> bool {
        forall|m: int| 0 <= m < self.modules@.len() ==> (#[trigger] self.modules@[m]).wf()
    }

    /// The module at `m`, as it is held.
    pub closed spec fn module(&self, m: ModuleID) -> Module {
        self.modules@[m as int]
    }

    /// The model is of the form that lowering makes.
    proof fn lemma_wf(&self)
        requires
            self.inv(),
        ensures
            self@.wf(),
    {
        assert forall|m: int| 0 <= m < self@.modules.len() implies {
            &&& (#[trigger] self@.modules[m]).spans.len() == self@.modules[m].nodes.len()
            &&& self@.modules[m].nodes.len() <= u32::MAX
            &&& wf_nodes(self@.modules[m].nodes)
            &&& forall|k: int|
                0 <= k < self@.tops[m].len() ==> #[trigger] self@.tops[m][k]
                    < self@.modules[m].nodes.len()
        } by {
            assert(self.modules@[m].wf());
        }
    }

    /// A collection without modules.
    pub fn new() -> (r: Self)
        ensures
            r@.modules.len() == 0,
            r@.paths.len() == 0,
    {
        ModuleCollection { paths: Vec::new(), modules: Vec::new() }
    }

    /// The number of modules. Every module of a collection is of the form
    /// that lowering makes.
    pub fn len(&self) -> (r: usize)
        ensures
            r == self@.modules.len(),
            self@.wf(),
    {
        proof {
            use_type_invariant(self);
            self.lemma_wf();
        }
        self.modules.len()
    }

    /// The collection with `module` registered under `path`, and the
    /// identifier of the module: the number of modules registered before
    /// it.
    pub fn add(self, path: String, module: Module) -> (r: (Self, ModuleID))
        requires
            module.wf(),
        ensures
            r.1 == self@.modules.len(),
            r.0@.modules == self@.modules.push(module.ir()),
            r.0@.tops == self@.tops.push(module.top_level@),
            r.0@.paths == self@.paths.push((path@, r.1)),
            r.0.module(r.1) == module,
            forall|m: ModuleID| m < self@.modules.len() ==> r.0.module(m) == self.module(m),
    {
        proof {
            use_type_invariant(&self);
        }
        let id = self.modules.len();
        let mut paths = self.paths;
        let mut modules = self.modules;
        paths.push((path, id));
        modules.push(module);
        let r = ModuleCollection { paths, modules };
        proof {
            assert(r@.modules =~= self@.modules.push(module.ir()));
            assert(r@.tops =~= self@.tops.push(module.top_level@));
            assert(r@.paths =~= self@.paths.push((path@, id)));
        }
        (r, id)
    }

    /// The module `module_id`, which must have been registered.
    pub fn get_ref(&self, module_id: ModuleID) -> (r: &Module)
        requires
            module_id < self@.modules.len(),
        ensures
            *r == self.module(module_id),
            r.wf(),
            r.ir() == self@.modules[module_id as int],
            r.top_level@ == self@.tops[module_id as int],
    {
        proof {
            use_type_invariant(self);
        }
        &self.modules[module_id]
    }

    /// The node at `idx`, which must be the address of a node.
    pub fn get_node(&self, idx: GlobalIdx) -> (r: &Node)
        requires
            self@.has(idx),
        ensures
            *r == self@.node(idx),
    {
        self.get_ref(idx.module()).get_node(idx.idx())
    }

    /// The source range of the node at `idx`; where it has none, the empty
    /// range at the start of the source.
    pub fn span(&self, idx: GlobalIdx) -> (r: Span)
        ensures
            r == self@.span(idx),
    {
        if idx.module() < self.modules.len() {
            match self.get_ref(idx.module()).span(idx.idx()) {
                Some(span) => span,
                None => (0, 0),
            }
        } else {
            (0, 0)
        }
    }

    /// The identifiers of the modules, in the order of registration.
    pub fn all_ids(&self) -> (r: Vec<ModuleID>)
        ensures
            r@ == Seq::new(self@.modules.len(), |m: int| m as ModuleID),
    {
        let mut out: Vec<ModuleID> = Vec::new();
        let mut m: usize = 0;
        while m < self.modules.len()
            invariant
                m <= self.modules@.len(),
                out@ == Seq::new(m as nat, |m: int| m as ModuleID),
            decreases self.modules@.len() - m,
        {
            out.push(m);
            assert(out@ =~= Seq::new((m + 1) as nat, |m: int| m as ModuleID));
            m = m + 1;
        }
        assert(out@ =~= Seq::new(self@.modules.len(), |m: int| m as ModuleID));
        out
    }

    /// The module that `path` stands for: the one registered last for it,
    /// `None` where none was.
    pub fn path_to_id(&self, path: &str) -> (r: Option<ModuleID>)
        ensures
            r == self@.module_of(path@),
    {
        let wanted = path.to_owned();
        let mut i: usize = self.paths.len();
        assert(self@.paths.subrange(0, i as int) =~= self@.paths);
        while i > 0
            invariant
                i <= self.paths@.len(),
                wanted@ == path@,
                self@.module_of(path@) == find_path(self@.paths.subrange(0, i as int), path@),
            decreases i,
        {
            proof {
                assert(self@.paths.subrange(0, i as int).drop_last() =~= self@.paths.subrange(
                    0,
                    i - 1,
                ));
                assert(self@.paths.subrange(0, i as int).last() == self@.paths[i - 1]);
            }
            if self.paths[i - 1].0 == wanted {
                return Some(self.paths[i - 1].1);
            }
            i = i - 1;
        }
        assert(self@.paths.subrange(0, 0) =~= Seq::<(Seq<char>, ModuleID)>::empty());
        None
    }

    /// A path under which module `module_id` was registered, if it was
    /// registered.
    pub fn path_of(&self, module_id: ModuleID) -> (r: Option<String>)
        ensures
            match r {
                Some(path) => exists|i: int|
                    0 <= i < self@.paths.len() && self@.paths[i] == (path@, module_id),
                None => forall|i: int| 0 <= i < self@.paths.len() ==> self@.paths[i].1 != module_id,
            },
    {
        let mut i: usize = 0;
        while i < self.paths.len()
            invariant
                i <= self.paths@.len(),
                forall|k: int| 0 <= k < i ==> self@.paths[k].1 != module_id,
            decreases self.paths@.len() - i,
        {
            if self.paths[i].1 == module_id {
                let path = self.paths[i].0.clone();
                assert(self@.paths[i as int] == (path@, module_id));
                return Some(path);
            }
            i = i + 1;
        }
        None
    }

    /// The addresses of the top-level items of module `module_id`, in
    /// order.
    pub fn top_level_ids(&self, module_id: ModuleID) -> (r: Vec<GlobalIdx>)
        requires
            module_id < self@.modules.len(),
        ensures
            r@ == Seq::new(
                self@.tops[module_id as int].len(),
                |k: int| GlobalIdx(module_id, self@.tops[module_id as int][k]),
            ),
    {
        let module = self.get_ref(module_id);
        let ghost tops = self@.tops[module_id as int];
        let mut out: Vec<GlobalIdx> = Vec::new();
        let mut k: usize = 0;
        while k < module.top_level.len()
            invariant
                k <= module.top_level@.len(),
                tops == module.top_level@,
                out@ == Seq::new(k as nat, |k: int| GlobalIdx(module_id, tops[k])),
            decreases module.top_level@.len() - k,
        {
            out.push(GlobalIdx(module_id, module.top_level[k]));
            assert(out@ =~= Seq::new((k + 1) as nat, |k: int| GlobalIdx(module_id, tops[k])));
            k = k + 1;
        }
        out
    }

    /// The names of the top-level items of module `module_id` that have
    /// one, each with the index of its node.
    pub fn top_level_names(&self, module_id: ModuleID) -> (r: Vec<(Identifier, NodeIdx)>)
        requires
            module_id < self@.modules.len(),
        ensures
            names_model(r@) == self@.names(module_id),
    {
        self.get_ref(module_id).top_level_names()
    }
}

} // verus!

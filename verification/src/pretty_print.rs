//! A listing of the nodes of a module with what the passes worked out
//! for each, for debugging.

use crate::cache::{Cache, ResolvedDefinition};
use crate::hir::{Expr, GlobalIdx, IdentModel, Identifier, Node, NodeIdx, Operator, TypedIdent};
use crate::module_index::{ModuleCollection, World};
use crate::report::{decimal, decimal_text, ModuleID};
use crate::resolved_effect::{ComponentEffectKind, ResolvedEffect, ResolvedEffects};
use crate::resolved_type::{render_type, ResolvedType};
use vstd::prelude::*;
use vstd::string::*;

verus! {

/// Two spaces for each level.
pub open spec fn indent_text(levels: nat) -> Seq<char>
    decreases levels,
{
    if levels == 0 {
        Seq::empty()
    } else {
        indent_text((levels - 1) as nat) + "  "@
    }
}

/// The address of a node: `#`, the module, `#`, the index.
pub open spec fn address_text(g: GlobalIdx) -> Seq<char> {
    "#"@ + decimal_text(g.0 as nat) + "#"@ + decimal_text(g.1 as nat)
}

/// A definition, by its address.
pub open spec fn definition_text(d: ResolvedDefinition) -> Seq<char> {
    "ResolvedDefinition("@ + address_text(d.0) + ")"@
}

/// The name of an operator.
pub open spec fn operator_text(op: Operator) -> Seq<char> {
    match op {
        Operator::Add => "Add"@,
        Operator::Sub => "Sub"@,
        Operator::Mul => "Mul"@,
        Operator::Div => "Div"@,
        Operator::Neg => "Neg"@,
        Operator::Eq => "Eq"@,
        Operator::Less => "Less"@,
        Operator::LessEq => "LessEq"@,
        Operator::Greater => "Greater"@,
        Operator::GreaterEq => "GreaterEq"@,
        Operator::Not => "Not"@,
        Operator::Or => "Or"@,
        Operator::And => "And"@,
    }
}

/// An identifier: a name between quotes, or an operator.
pub open spec fn identifier_text(i: IdentModel) -> Seq<char> {
    match i {
        IdentModel::Name(s) => "Name(\""@ + s + "\")"@,
        IdentModel::Operator(op) => "Operator("@ + operator_text(op) + ")"@,
    }
}

/// What an access does.
pub open spec fn kind_text(kind: ComponentEffectKind) -> Seq<char> {
    match kind {
        ComponentEffectKind::ReadResource => "ReadResource"@,
        ComponentEffectKind::WriteResource => "WriteResource"@,
        ComponentEffectKind::ReadComponent { entity } => "ReadComponent { entity: "@ + address_text(
            entity,
        ) + " }"@,
        ComponentEffectKind::WriteComponent { entity } => "WriteComponent { entity: "@
            + address_text(entity) + " }"@,
        ComponentEffectKind::HasComponent { entity } => "HasComponent { entity: "@ + address_text(
            entity,
        ) + " }"@,
    }
}

/// One effect.
pub open spec fn effect_text(e: ResolvedEffect) -> Seq<char> {
    match e {
        ResolvedEffect::Access { component, kind } => "Access { component: "@ + address_text(
            component,
        ) + ", kind: "@ + kind_text(kind) + " }"@,
        ResolvedEffect::StructuralChange { entity: Some(q) } => "StructuralChange { entity: Some("@
            + address_text(q) + ") }"@,
        ResolvedEffect::StructuralChange { entity: None } => "StructuralChange { entity: None }"@,
    }
}

/// The effects `es`, each followed by `, ` but the last.
pub open spec fn effects_text(es: Seq<ResolvedEffect>) -> Seq<char>
    decreases es.len(),
{
    if es.len() == 0 {
        Seq::empty()
    } else if es.len() == 1 {
        effect_text(es[0])
    } else {
        effects_text(es.drop_last()) + ", "@ + effect_text(es.last())
    }
}

/// A type as diagnostics show it; one of a value of the store is marked.
pub open spec fn type_text(t: ResolvedType) -> Seq<char> {
    if t.component_or_resource {
        render_type(t.inner@) + " in store"@
    } else {
        render_type(t.inner@)
    }
}

fn address(g: GlobalIdx) -> (r: String)
    ensures
        r@ == address_text(g),
{
    let m = decimal(g.0);
    let i = decimal(g.1 as usize);
    String::from_str("#").concat(m.as_str()).concat("#").concat(i.as_str())
}

fn definition(d: ResolvedDefinition) -> (r: String)
    ensures
        r@ == definition_text(d),
{
    let a = address(d.0);
    String::from_str("ResolvedDefinition(").concat(a.as_str()).concat(")")
}

fn operator(op: Operator) -> (r: &'static str)
    ensures
        r@ == operator_text(op),
{
    match op {
        Operator::Add => "Add",
        Operator::Sub => "Sub",
        Operator::Mul => "Mul",
        Operator::Div => "Div",
        Operator::Neg => "Neg",
        Operator::Eq => "Eq",
        Operator::Less => "Less",
        Operator::LessEq => "LessEq",
        Operator::Greater => "Greater",
        Operator::GreaterEq => "GreaterEq",
        Operator::Not => "Not",
        Operator::Or => "Or",
        Operator::And => "And",
    }
}

fn identifier(i: &Identifier) -> (r: String)
    ensures
        r@ == identifier_text(i@),
{
    match i {
        Identifier::Name(s) => String::from_str("Name(\"").concat(s.as_str()).concat("\")"),
        Identifier::Operator(op) => String::from_str("Operator(").concat(operator(*op)).concat(")"),
    }
}

fn kind(k: ComponentEffectKind) -> (r: String)
    ensures
        r@ == kind_text(k),
{
    match k {
        ComponentEffectKind::ReadResource => String::from_str("ReadResource"),
        ComponentEffectKind::WriteResource => String::from_str("WriteResource"),
        ComponentEffectKind::ReadComponent { entity } => {
            let a = address(entity);
            String::from_str("ReadComponent { entity: ").concat(a.as_str()).concat(" }")
        },
        ComponentEffectKind::WriteComponent { entity } => {
            let a = address(entity);
            String::from_str("WriteComponent { entity: ").concat(a.as_str()).concat(" }")
        },
        ComponentEffectKind::HasComponent { entity } => {
            let a = address(entity);
            String::from_str("HasComponent { entity: ").concat(a.as_str()).concat(" }")
        },
    }
}

fn effect(e: ResolvedEffect) -> (r: String)
    ensures
        r@ == effect_text(e),
{
    match e {
        ResolvedEffect::Access { component, kind: k } => {
            let a = address(component);
            let k = kind(k);
            String::from_str("Access { component: ").concat(a.as_str()).concat(", kind: ").concat(
                k.as_str(),
            ).concat(" }")
        },
        ResolvedEffect::StructuralChange { entity: Some(q) } => {
            let a = address(q);
            String::from_str("StructuralChange { entity: Some(").concat(a.as_str()).concat(") }")
        },
        ResolvedEffect::StructuralChange { entity: None } => String::from_str(
            "StructuralChange { entity: None }",
        ),
    }
}

fn effects(set: &ResolvedEffects) -> (r: String)
    ensures
        r@ == effects_text(set.listed()),
{
    let all = set.in_order();
    let mut out = String::new();
    let mut i: usize = 0;
    assert(all@.subrange(0, 0) =~= Seq::<ResolvedEffect>::empty());
    while i < all.len()
        invariant
            i <= all@.len(),
            out@ == effects_text(all@.subrange(0, i as int)),
        decreases all@.len() - i,
    {
        proof {
            assert(all@.subrange(0, i + 1).drop_last() =~= all@.subrange(0, i as int));
            assert(all@.subrange(0, i + 1).last() == all@[i as int]);
        }
        let one = effect(all[i]);
        if i > 0 {
            out.append(", ");
        } else {
            assert(out@ + one@ =~= one@);
        }
        out.append(one.as_str());
        i = i + 1;
    }
    assert(all@.subrange(0, all@.len() as int) =~= all@);
    out
}

fn type_of(t: &ResolvedType) -> (r: String)
    ensures
        r@ == type_text(*t),
{
    let inner = t.inner.display();
    if t.component_or_resource {
        inner.concat(" in store")
    } else {
        inner
    }
}

fn indentation(levels: u64) -> (r: String)
    ensures
        r@ == indent_text(levels as nat),
{
    let mut out = String::new();
    let mut i: u64 = 0;
    while i < levels
        invariant
            i <= levels,
            out@ == indent_text(i as nat),
        decreases levels - i,
    {
        out.append("  ");
        i = i + 1;
    }
    out
}


/// What a listing shows: the modules, and what the passes recorded for
/// their nodes.
pub struct Listing {
    pub world: World,
    pub names: Map<GlobalIdx, ResolvedDefinition>,
    pub types: Map<GlobalIdx, ResolvedType>,
    pub effects: Map<GlobalIdx, ResolvedEffects>,
}

/// What a listing of `modules` with the records of `cache` shows.
pub open spec fn listing_of(cache: &Cache, modules: &ModuleCollection) -> Listing {
    Listing {
        world: modules@,
        names: cache.names@,
        types: cache.types@,
        effects: cache.effects@,
    }
}

impl Listing {
    /// The definition recorded for `g`; nothing where there is none.
    pub open spec fn name(self, g: GlobalIdx) -> Seq<char> {
        if self.names.contains_key(g) {
            definition_text(self.names[g])
        } else {
            Seq::empty()
        }
    }

    /// ` = ` and the definition recorded for `g`; nothing where there is
    /// none.
    pub open spec fn target(self, g: GlobalIdx) -> Seq<char> {
        if self.names.contains_key(g) {
            " = "@ + definition_text(self.names[g])
        } else {
            Seq::empty()
        }
    }

    /// The definition recorded for `g` as an optional value.
    pub open spec fn binding(self, g: GlobalIdx) -> Seq<char> {
        if self.names.contains_key(g) {
            "Some("@ + definition_text(self.names[g]) + ")"@
        } else {
            "None"@
        }
    }

    /// `: ` and the type recorded for `g`, then ` / ` and the access set
    /// recorded for it between braces; each only where there is one.
    pub open spec fn marks(self, g: GlobalIdx) -> Seq<char> {
        let t = if self.types.contains_key(g) {
            ": "@ + type_text(self.types[g])
        } else {
            Seq::empty()
        };
        let e = if self.effects.contains_key(g) {
            " / {"@ + effects_text(self.effects[g].listed()) + "}"@
        } else {
            Seq::empty()
        };
        t + e
    }

    /// The text of the node `c`, to which the node `i` refers. A node
    /// refers only to nodes before it; a reference to another one shows
    /// nothing.
    pub open spec fn child(self, m: ModuleID, c: NodeIdx, i: NodeIdx, indent: nat) -> Seq<char>
        decreases i, 0int, 0nat,
    {
        if c < i {
            self.node(m, c, indent)
        } else {
            Seq::empty()
        }
    }

    /// The texts of the nodes `ids`, to which the node `i` refers, one to
    /// a line.
    pub open spec fn children(
        self,
        m: ModuleID,
        ids: Seq<NodeIdx>,
        i: NodeIdx,
        indent: nat,
    ) -> Seq<char>
        decreases i, 1int, ids.len(),
    {
        if ids.len() == 0 {
            Seq::empty()
        } else if ids.len() == 1 {
            self.child(m, ids[0], i, indent)
        } else {
            self.children(m, ids.drop_last(), i, indent) + "\n"@ + self.child(
                m,
                ids.last(),
                i,
                indent,
            )
        }
    }

    /// A field of the node `i`: its name, `: `, and its type.
    pub open spec fn typed(self, m: ModuleID, f: TypedIdent, i: NodeIdx, indent: nat) -> Seq<char>
        decreases i, 1int, 0nat,
    {
        f.ident@ + ": "@ + self.child(m, f.ty, i, indent + 1)
    }

    /// The fields of the struct type `i`, one to a line.
    pub open spec fn fields(
        self,
        m: ModuleID,
        fs: Seq<TypedIdent>,
        i: NodeIdx,
        indent: nat,
    ) -> Seq<char>
        decreases i, 1int, fs.len(),
    {
        if fs.len() == 0 {
            Seq::empty()
        } else if fs.len() == 1 {
            self.typed(m, fs[0], i, indent)
        } else {
            self.fields(m, fs.drop_last(), i, indent) + "\n"@ + self.typed(m, fs.last(), i, indent)
        }
    }

    /// A member of the struct literal `i`: its name, `: `, and its value.
    pub open spec fn member(
        self,
        m: ModuleID,
        f: (String, NodeIdx),
        i: NodeIdx,
        indent: nat,
    ) -> Seq<char>
        decreases i, 1int, 0nat,
    {
        f.0@ + ": "@ + self.child(m, f.1, i, indent)
    }

    /// The members of the struct literal `i`, one to a line.
    pub open spec fn members(
        self,
        m: ModuleID,
        fs: Seq<(String, NodeIdx)>,
        i: NodeIdx,
        indent: nat,
    ) -> Seq<char>
        decreases i, 1int, fs.len(),
    {
        if fs.len() == 0 {
            Seq::empty()
        } else if fs.len() == 1 {
            self.member(m, fs[0], i, indent)
        } else {
            self.members(m, fs.drop_last(), i, indent) + "\n"@ + self.member(
                m,
                fs.last(),
                i,
                indent,
            )
        }
    }

    /// The text of the expression `e`, which is the node `i` of module
    /// `m`, without its indentation: what it is, its type and access set,
    /// then its parts, one level deeper.
    pub open spec fn expr(self, m: ModuleID, e: Expr, i: NodeIdx, indent: nat) -> Seq<char>
        decreases i, 2int, 0nat,
    {
        let g = GlobalIdx(m, i);
        let te = self.marks(g);
        let next = indent + 1;
        match e {
            Expr::Block(ids) => "Block"@ + te + "\n"@ + self.children(m, ids@, i, next),
            Expr::Identifier(_) => "Identifier"@ + self.target(g) + te,
            Expr::Number(n) => "Number "@ + n@ + te,
            Expr::ComponentAccess { entity, component } => "ComponentAccess"@ + te + "\n"@
                + self.children(m, seq![entity, component], i, next),
            Expr::ResourceAccess { resource } => "ResourceAccess"@ + te + "\n"@ + self.child(
                m,
                resource,
                i,
                next,
            ),
            Expr::MemberAccess { base, member } => "MemberAccess"@ + te + "\n"@ + self.children(
                m,
                seq![base, member],
                i,
                next,
            ),
            Expr::Assign { lvalue, expr } => "Assign"@ + te + "\n"@ + self.children(
                m,
                seq![lvalue, expr],
                i,
                next,
            ),
            Expr::FunctionCall { function, args } => "FunctionCall"@ + te + "\n"@ + self.child(
                m,
                function,
                i,
                next,
            ) + "\n"@ + self.children(m, args@, i, next),
            Expr::Query { block, .. } => "Query "@ + self.binding(g) + te + "\n"@ + self.child(
                m,
                block,
                i,
                next,
            ),
            Expr::Let { lvalue, expr } => "Let "@ + te + "\n"@ + self.children(
                m,
                seq![lvalue, expr],
                i,
                next,
            ),
            Expr::Del { expr } => "Del "@ + te + "\n"@ + self.child(m, expr, i, next) + "\n"@,
            Expr::If { cond, expr, otherwise } => "If "@ + te + "\n"@ + self.children(
                m,
                match otherwise {
                    Some(other) => seq![cond, expr, other],
                    None => seq![cond, expr],
                },
                i,
                next,
            ),
            Expr::While { cond, expr } => "While "@ + te + "\n"@ + self.children(
                m,
                seq![cond, expr],
                i,
                next,
            ),
            Expr::Struct { ident, fields } => "Struct "@ + te + "\n"@ + identifier_text(ident@)
                + "\n"@ + self.members(m, fields@, i, next),
            Expr::Poison => "POISON"@,
        }
    }

    /// The text of the node `i` of module `m`; nothing where there is no
    /// such node. An expression is indented by `indent` levels.
    pub open spec fn node(self, m: ModuleID, i: NodeIdx, indent: nat) -> Seq<char>
        decreases i, 3int, 0nat,
    {
        let g = GlobalIdx(m, i);
        if !self.world.has(g) {
            Seq::empty()
        } else {
            match self.world.node(g) {
                Node::System(system) => "System "@ + self.name(g) + "\n"@ + self.child(
                    m,
                    system.block,
                    i,
                    indent + 1,
                ),
                Node::Component(f) => "Component "@ + self.name(g) + " "@ + self.typed(
                    m,
                    f,
                    i,
                    indent + 1,
                ),
                Node::Resource(f) => "Resource "@ + self.name(g) + " "@ + self.typed(
                    m,
                    f,
                    i,
                    indent + 1,
                ),
                Node::TypeIdent(t) => t.0@ + " "@ + self.name(g),
                Node::Struct(s) => "Struct\n"@ + self.fields(m, s.0@, i, indent + 1),
                Node::Expr(e) => indent_text(indent) + self.expr(m, e, i, indent),
                Node::BuiltinType { .. } => "BuiltinType"@,
                Node::BuiltinFunction { .. } => "BuiltinFunction"@,
                Node::Import(path) => "Import \""@ + path@ + "\""@,
            }
        }
    }

    /// The texts of the items `ids` of module `m`, each on a line of its
    /// own, which two spaces begin.
    pub open spec fn items(self, m: ModuleID, ids: Seq<NodeIdx>) -> Seq<char>
        decreases ids.len(),
    {
        if ids.len() == 0 {
            Seq::empty()
        } else if ids.len() == 1 {
            self.node(m, ids[0], 0)
        } else {
            self.items(m, ids.drop_last()) + "\n  "@ + self.node(m, ids.last(), 0)
        }
    }

    /// The listing of module `m`: `Root`, then its top-level items.
    pub open spec fn module(self, m: ModuleID) -> Seq<char> {
        "Root\n  "@ + self.items(m, self.world.tops[m as int])
    }
}


fn pair(a: NodeIdx, b: NodeIdx) -> (r: Vec<NodeIdx>)
    ensures
        r@ == seq![a, b],
{
    let mut out: Vec<NodeIdx> = Vec::new();
    out.push(a);
    out.push(b);
    assert(out@ =~= seq![a, b]);
    out
}

/// The deepest indentation at which the node `i` can stand: a reference
/// leads to a node before, at most two levels deeper.
spec fn deepest(i: NodeIdx) -> int {
    2 * (u32::MAX - i)
}

struct PrintCtx<'a> {
    modules: &'a ModuleCollection,
    cache: &'a Cache,
}

impl<'a> PrintCtx<'a> {
    spec fn shown(&self) -> Listing {
        listing_of(self.cache, self.modules)
    }

    spec fn has_module(&self, m: ModuleID) -> bool {
        m < self.modules@.modules.len()
    }

    fn name(&self, g: GlobalIdx) -> (r: String)
        ensures
            r@ == self.shown().name(g),
    {
        match self.cache.names.get(g) {
            Some(d) => definition(d),
            None => String::new(),
        }
    }

    fn target(&self, g: GlobalIdx) -> (r: String)
        ensures
            r@ == self.shown().target(g),
    {
        match self.cache.names.get(g) {
            Some(d) => {
                let d = definition(d);
                String::from_str(" = ").concat(d.as_str())
            },
            None => String::new(),
        }
    }

    fn binding(&self, g: GlobalIdx) -> (r: String)
        ensures
            r@ == self.shown().binding(g),
    {
        match self.cache.names.get(g) {
            Some(d) => {
                let d = definition(d);
                String::from_str("Some(").concat(d.as_str()).concat(")")
            },
            None => String::from_str("None"),
        }
    }

    fn marks(&self, g: GlobalIdx) -> (r: String)
        ensures
            r@ == self.shown().marks(g),
    {
        let t = match self.cache.types.get_ref(g) {
            Some(t) => {
                let t = type_of(t);
                String::from_str(": ").concat(t.as_str())
            },
            None => String::new(),
        };
        let e = match self.cache.effects.get_ref(g) {
            Some(e) => {
                let e = effects(e);
                String::from_str(" / {").concat(e.as_str()).concat("}")
            },
            None => String::new(),
        };
        t.concat(e.as_str())
    }

    fn child(&self, m: ModuleID, c: NodeIdx, i: NodeIdx, indent: u64) -> (r: String)
        requires
            self.has_module(m),
            indent <= deepest(i) + 2,
        ensures
            r@ == self.shown().child(m, c, i, indent as nat),
        decreases i, 0int, 0nat,
    {
        if c < i {
            self.node(m, c, indent)
        } else {
            String::new()
        }
    }

    fn children(&self, m: ModuleID, ids: &Vec<NodeIdx>, i: NodeIdx, indent: u64) -> (r: String)
        requires
            self.has_module(m),
            indent <= deepest(i) + 2,
        ensures
            r@ == self.shown().children(m, ids@, i, indent as nat),
        decreases i, 1int, 0nat,
    {
        let mut out = String::new();
        let mut k: usize = 0;
        assert(ids@.subrange(0, 0) =~= Seq::<NodeIdx>::empty());
        while k < ids.len()
            invariant
                k <= ids@.len(),
                self.has_module(m),
                indent <= deepest(i) + 2,
                out@ == self.shown().children(m, ids@.subrange(0, k as int), i, indent as nat),
            decreases ids@.len() - k,
        {
            proof {
                assert(ids@.subrange(0, k + 1).drop_last() =~= ids@.subrange(0, k as int));
                assert(ids@.subrange(0, k + 1).last() == ids@[k as int]);
            }
            let one = self.child(m, ids[k], i, indent);
            if k > 0 {
                out.append("\n");
            } else {
                assert(out@ + one@ =~= one@);
            }
            out.append(one.as_str());
            k = k + 1;
        }
        assert(ids@.subrange(0, ids@.len() as int) =~= ids@);
        out
    }

    fn typed(&self, m: ModuleID, f: &TypedIdent, i: NodeIdx, indent: u64) -> (r: String)
        requires
            self.has_module(m),
            indent <= deepest(i) + 1,
        ensures
            r@ == self.shown().typed(m, *f, i, indent as nat),
        decreases i, 1int, 0nat,
    {
        let ty = self.child(m, f.ty, i, indent + 1);
        f.ident.clone().concat(": ").concat(ty.as_str())
    }

    fn fields(&self, m: ModuleID, fs: &Vec<TypedIdent>, i: NodeIdx, indent: u64) -> (r: String)
        requires
            self.has_module(m),
            indent <= deepest(i) + 1,
        ensures
            r@ == self.shown().fields(m, fs@, i, indent as nat),
        decreases i, 1int, 1nat,
    {
        let mut out = String::new();
        let mut k: usize = 0;
        assert(fs@.subrange(0, 0) =~= Seq::<TypedIdent>::empty());
        while k < fs.len()
            invariant
                k <= fs@.len(),
                self.has_module(m),
                indent <= deepest(i) + 1,
                out@ == self.shown().fields(m, fs@.subrange(0, k as int), i, indent as nat),
            decreases fs@.len() - k,
        {
            proof {
                assert(fs@.subrange(0, k + 1).drop_last() =~= fs@.subrange(0, k as int));
                assert(fs@.subrange(0, k + 1).last() == fs@[k as int]);
            }
            let one = self.typed(m, &fs[k], i, indent);
            if k > 0 {
                out.append("\n");
            } else {
                assert(out@ + one@ =~= one@);
            }
            out.append(one.as_str());
            k = k + 1;
        }
        assert(fs@.subrange(0, fs@.len() as int) =~= fs@);
        out
    }

    fn members(&self, m: ModuleID, fs: &Vec<(String, NodeIdx)>, i: NodeIdx, indent: u64) -> (r:
        String)
        requires
            self.has_module(m),
            indent <= deepest(i) + 2,
        ensures
            r@ == self.shown().members(m, fs@, i, indent as nat),
        decreases i, 1int, 1nat,
    {
        let mut out = String::new();
        let mut k: usize = 0;
        assert(fs@.subrange(0, 0) =~= Seq::<(String, NodeIdx)>::empty());
        while k < fs.len()
            invariant
                k <= fs@.len(),
                self.has_module(m),
                indent <= deepest(i) + 2,
                out@ == self.shown().members(m, fs@.subrange(0, k as int), i, indent as nat),
            decreases fs@.len() - k,
        {
            proof {
                assert(fs@.subrange(0, k + 1).drop_last() =~= fs@.subrange(0, k as int));
                assert(fs@.subrange(0, k + 1).last() == fs@[k as int]);
            }
            let value = self.child(m, fs[k].1, i, indent);
            let one = fs[k].0.clone().concat(": ").concat(value.as_str());
            assert(one@ == self.shown().member(m, fs@[k as int], i, indent as nat));
            if k > 0 {
                out.append("\n");
            } else {
                assert(out@ + one@ =~= one@);
            }
            out.append(one.as_str());
            k = k + 1;
        }
        assert(fs@.subrange(0, fs@.len() as int) =~= fs@);
        out
    }

    /// A heading, then the nodes `ids` one level deeper.
    fn with_children(&self, m: ModuleID, head: &str, ids: &Vec<NodeIdx>, i: NodeIdx, indent: u64) -> (r:
        String)
        requires
            self.has_module(m),
            indent <= deepest(i),
        ensures
            r@ == head@ + self.shown().marks(GlobalIdx(m, i)) + "\n"@ + self.shown().children(
                m,
                ids@,
                i,
                (indent + 1) as nat,
            ),
        decreases i, 1int, 1nat,
    {
        let te = self.marks(GlobalIdx(m, i));
        let parts = self.children(m, ids, i, indent + 1);
        String::from_str(head).concat(te.as_str()).concat("\n").concat(parts.as_str())
    }

    /// A heading, then the node `c` one level deeper.
    fn with_child(&self, m: ModuleID, head: String, c: NodeIdx, i: NodeIdx, indent: u64) -> (r:
        String)
        requires
            self.has_module(m),
            indent <= deepest(i),
        ensures
            r@ == head@ + self.shown().marks(GlobalIdx(m, i)) + "\n"@ + self.shown().child(
                m,
                c,
                i,
                (indent + 1) as nat,
            ),
        decreases i, 1int, 1nat,
    {
        let te = self.marks(GlobalIdx(m, i));
        let part = self.child(m, c, i, indent + 1);
        head.concat(te.as_str()).concat("\n").concat(part.as_str())
    }

    fn expr(&self, m: ModuleID, e: &Expr, i: NodeIdx, indent: u64) -> (r: String)
        requires
            self.has_module(m),
            indent <= deepest(i),
        ensures
            r@ == self.shown().expr(m, *e, i, indent as nat),
        decreases i, 2int, 0nat,
    {
        let g = GlobalIdx(m, i);
        match e {
            Expr::Block(ids) => self.with_children(m, "Block", ids, i, indent),
            Expr::Identifier(_) => {
                let name = self.target(g);
                let te = self.marks(g);
                String::from_str("Identifier").concat(name.as_str()).concat(te.as_str())
            },
            Expr::Number(n) => {
                let te = self.marks(g);
                String::from_str("Number ").concat(n.as_str()).concat(te.as_str())
            },
            Expr::ComponentAccess { entity, component } => {
                let parts = pair(*entity, *component);
                self.with_children(m, "ComponentAccess", &parts, i, indent)
            },
            Expr::ResourceAccess { resource } => self.with_child(
                m,
                String::from_str("ResourceAccess"),
                *resource,
                i,
                indent,
            ),
            Expr::MemberAccess { base, member } => {
                let parts = pair(*base, *member);
                self.with_children(m, "MemberAccess", &parts, i, indent)
            },
            Expr::Assign { lvalue, expr } => {
                let parts = pair(*lvalue, *expr);
                self.with_children(m, "Assign", &parts, i, indent)
            },
            Expr::FunctionCall { function, args } => {
                let head = self.with_child(
                    m,
                    String::from_str("FunctionCall"),
                    *function,
                    i,
                    indent,
                );
                let rest = self.children(m, args, i, indent + 1);
                head.concat("\n").concat(rest.as_str())
            },
            Expr::Query { block, .. } => {
                let name = self.binding(g);
                self.with_child(m, String::from_str("Query ").concat(name.as_str()), *block, i, indent)
            },
            Expr::Let { lvalue, expr } => {
                let parts = pair(*lvalue, *expr);
                self.with_children(m, "Let ", &parts, i, indent)
            },
            Expr::Del { expr } => self.with_child(m, String::from_str("Del "), *expr, i, indent).concat(
                "\n",
            ),
            Expr::If { cond, expr, otherwise } => {
                let mut parts = pair(*cond, *expr);
                match otherwise {
                    Some(other) => {
                        parts.push(*other);
                        assert(parts@ =~= seq![*cond, *expr, *other]);
                    },
                    None => {},
                }
                self.with_children(m, "If ", &parts, i, indent)
            },
            Expr::While { cond, expr } => {
                let parts = pair(*cond, *expr);
                self.with_children(m, "While ", &parts, i, indent)
            },
            Expr::Struct { ident, fields } => {
                let te = self.marks(g);
                let name = identifier(ident);
                let rest = self.members(m, fields, i, indent + 1);
                String::from_str("Struct ").concat(te.as_str()).concat("\n").concat(
                    name.as_str(),
                ).concat("\n").concat(rest.as_str())
            },
            Expr::Poison => String::from_str("POISON"),
        }
    }

    fn node(&self, m: ModuleID, i: NodeIdx, indent: u64) -> (r: String)
        requires
            self.has_module(m),
            indent <= deepest(i),
        ensures
            r@ == self.shown().node(m, i, indent as nat),
        decreases i, 3int, 0nat,
    {
        let g = GlobalIdx(m, i);
        match self.modules.get_ref(m).node(i) {
            None => String::new(),
            Some(n) => match n {
                Node::System(system) => {
                    let name = self.name(g);
                    let body = self.child(m, system.block, i, indent + 1);
                    String::from_str("System ").concat(name.as_str()).concat("\n").concat(
                        body.as_str(),
                    )
                },
                Node::Component(f) => {
                    let name = self.name(g);
                    let field = self.typed(m, f, i, indent + 1);
                    String::from_str("Component ").concat(name.as_str()).concat(" ").concat(
                        field.as_str(),
                    )
                },
                Node::Resource(f) => {
                    let name = self.name(g);
                    let field = self.typed(m, f, i, indent + 1);
                    String::from_str("Resource ").concat(name.as_str()).concat(" ").concat(
                        field.as_str(),
                    )
                },
                Node::TypeIdent(t) => {
                    let name = self.name(g);
                    t.0.clone().concat(" ").concat(name.as_str())
                },
                Node::Struct(s) => {
                    let fields = self.fields(m, &s.0, i, indent + 1);
                    String::from_str("Struct\n").concat(fields.as_str())
                },
                Node::Expr(e) => {
                    let body = self.expr(m, e, i, indent);
                    indentation(indent).concat(body.as_str())
                },
                Node::BuiltinType { .. } => String::from_str("BuiltinType"),
                Node::BuiltinFunction { .. } => String::from_str("BuiltinFunction"),
                Node::Import(path) => String::from_str("Import \"").concat(path.as_str()).concat(
                    "\"",
                ),
            },
        }
    }
}

/// The listing of module `module_id`: `Root`, then each top-level item
/// with its parts below it, and with the definition, the type and the
/// access set that `cache` records for each node.
pub fn run(cache: &Cache, modules: &ModuleCollection, module_id: ModuleID) -> (r: String)
    requires
        module_id < modules@.modules.len(),
    ensures
        r@ == listing_of(cache, modules).module(module_id),
{
    let print = PrintCtx { modules, cache };
    let module = modules.get_ref(module_id);
    let ids = &module.top_level;
    let mut out = String::new();
    let mut k: usize = 0;
    assert(ids@.subrange(0, 0) =~= Seq::<NodeIdx>::empty());
    while k < ids.len()
        invariant
            k <= ids@.len(),
            print.has_module(module_id),
            print.shown() == listing_of(cache, modules),
            out@ == print.shown().items(module_id, ids@.subrange(0, k as int)),
        decreases ids@.len() - k,
    {
        proof {
            assert(ids@.subrange(0, k + 1).drop_last() =~= ids@.subrange(0, k as int));
            assert(ids@.subrange(0, k + 1).last() == ids@[k as int]);
        }
        let one = print.node(module_id, ids[k], 0);
        if k > 0 {
            out.append("\n  ");
        } else {
            assert(out@ + one@ =~= one@);
        }
        out.append(one.as_str());
        k = k + 1;
    }
    assert(ids@.subrange(0, ids@.len() as int) =~= ids@);
    String::from_str("Root\n  ").concat(out.as_str())
}

} // verus!

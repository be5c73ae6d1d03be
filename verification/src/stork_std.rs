//! The module of builtin functions: the operators of the language, and
//! `print`. What each of them does is up to the host; here are their names
//! and types.

use crate::hir::{IdentModel, Identifier, NodeIdx, Node, Operator};
use crate::module_index::Module;
use crate::resolved_effect::{ResolvedEffect, ResolvedEffects};
use crate::resolved_type::{
    lemma_function_model, types_model, InnerResolvedType, ResolvedType, TypeModel,
};
use vstd::prelude::*;
use vstd::string::StringExecFns;

verus! {

/// The number of builtin functions.
pub const BUILTIN_COUNT: usize = 14;

/// The name of the `k`-th builtin function.
pub open spec fn builtin_name(k: int) -> IdentModel {
    if k == 0 {
        IdentModel::Operator(Operator::Add)
    } else if k == 1 {
        IdentModel::Operator(Operator::Sub)
    } else if k == 2 {
        IdentModel::Operator(Operator::Mul)
    } else if k == 3 {
        IdentModel::Operator(Operator::Div)
    } else if k == 4 {
        IdentModel::Operator(Operator::Neg)
    } else if k == 5 {
        IdentModel::Operator(Operator::Eq)
    } else if k == 6 {
        IdentModel::Operator(Operator::Less)
    } else if k == 7 {
        IdentModel::Operator(Operator::LessEq)
    } else if k == 8 {
        IdentModel::Operator(Operator::Greater)
    } else if k == 9 {
        IdentModel::Operator(Operator::GreaterEq)
    } else if k == 10 {
        IdentModel::Operator(Operator::Not)
    } else if k == 11 {
        IdentModel::Operator(Operator::Or)
    } else if k == 12 {
        IdentModel::Operator(Operator::And)
    } else {
        IdentModel::Name("print"@)
    }
}

/// The type of the `k`-th builtin function: arithmetic is on numbers,
/// comparison is of numbers and gives a boolean, logic is on booleans, and
/// `print` takes a number and gives nothing.
pub open spec fn builtin_type(k: int) -> TypeModel {
    let number = TypeModel::F32;
    let boolean = TypeModel::Bool;
    if 0 <= k <= 3 {
        TypeModel::Function { params: seq![number, number], ret: Box::new(number) }
    } else if k == 4 {
        TypeModel::Function { params: seq![number], ret: Box::new(number) }
    } else if 5 <= k <= 9 {
        TypeModel::Function { params: seq![number, number], ret: Box::new(boolean) }
    } else if k == 10 {
        TypeModel::Function { params: seq![boolean], ret: Box::new(boolean) }
    } else if 11 <= k <= 12 {
        TypeModel::Function { params: seq![boolean, boolean], ret: Box::new(boolean) }
    } else {
        TypeModel::Function { params: seq![number], ret: Box::new(TypeModel::Unit) }
    }
}

/// Whether `node` is the `k`-th builtin function.
pub open spec fn is_builtin_function(node: Node, k: int) -> bool {
    match node {
        Node::BuiltinFunction { identifier, ty, effects } => {
            &&& identifier@ == builtin_name(k)
            &&& ty@ == (builtin_type(k), false)
            &&& effects@ == Set::<ResolvedEffect>::empty()
        },
        _ => false,
    }
}

fn function_type(params: Vec<InnerResolvedType>, ret: InnerResolvedType) -> (r: ResolvedType)
    ensures
        r@ == (TypeModel::Function { params: types_model(params@), ret: Box::new(ret@) }, false),
{
    let ret = Box::new(ret);
    proof {
        lemma_function_model(params, ret);
    }
    ResolvedType::from_inner(InnerResolvedType::Function { params, ret })
}

fn unary(a: InnerResolvedType, ret: InnerResolvedType) -> (r: ResolvedType)
    ensures
        r@ == (TypeModel::Function { params: seq![a@], ret: Box::new(ret@) }, false),
{
    let mut params: Vec<InnerResolvedType> = Vec::new();
    params.push(a);
    assert(types_model(params@) =~= seq![a@]);
    function_type(params, ret)
}

fn binary(a: InnerResolvedType, b: InnerResolvedType, ret: InnerResolvedType) -> (r: ResolvedType)
    ensures
        r@ == (TypeModel::Function { params: seq![a@, b@], ret: Box::new(ret@) }, false),
{
    let mut params: Vec<InnerResolvedType> = Vec::new();
    params.push(a);
    params.push(b);
    assert(types_model(params@) =~= seq![a@, b@]);
    function_type(params, ret)
}

/// The `k`-th builtin function.
fn builtin(k: usize) -> (r: Node)
    requires
        k < BUILTIN_COUNT,
    ensures
        is_builtin_function(r, k as int),
{
    let identifier = if k == 0 {
        Identifier::Operator(Operator::Add)
    } else if k == 1 {
        Identifier::Operator(Operator::Sub)
    } else if k == 2 {
        Identifier::Operator(Operator::Mul)
    } else if k == 3 {
        Identifier::Operator(Operator::Div)
    } else if k == 4 {
        Identifier::Operator(Operator::Neg)
    } else if k == 5 {
        Identifier::Operator(Operator::Eq)
    } else if k == 6 {
        Identifier::Operator(Operator::Less)
    } else if k == 7 {
        Identifier::Operator(Operator::LessEq)
    } else if k == 8 {
        Identifier::Operator(Operator::Greater)
    } else if k == 9 {
        Identifier::Operator(Operator::GreaterEq)
    } else if k == 10 {
        Identifier::Operator(Operator::Not)
    } else if k == 11 {
        Identifier::Operator(Operator::Or)
    } else if k == 12 {
        Identifier::Operator(Operator::And)
    } else {
        Identifier::Name(String::from_str("print"))
    };
    let ty = if k <= 3 {
        binary(InnerResolvedType::F32, InnerResolvedType::F32, InnerResolvedType::F32)
    } else if k == 4 {
        unary(InnerResolvedType::F32, InnerResolvedType::F32)
    } else if k <= 9 {
        binary(InnerResolvedType::F32, InnerResolvedType::F32, InnerResolvedType::Bool)
    } else if k == 10 {
        unary(InnerResolvedType::Bool, InnerResolvedType::Bool)
    } else if k <= 12 {
        binary(InnerResolvedType::Bool, InnerResolvedType::Bool, InnerResolvedType::Bool)
    } else {
        unary(InnerResolvedType::F32, InnerResolvedType::Unit)
    };
    Node::BuiltinFunction { identifier, ty, effects: ResolvedEffects::new() }
}

/// Whether `node` is the builtin type `name`, which is `ty` and does not
/// come from the store.
pub open spec fn is_builtin_type(node: Node, name: Seq<char>, ty: TypeModel) -> bool {
    match node {
        Node::BuiltinType { identifier, ty: t, effects } => {
            &&& identifier@ == IdentModel::Name(name)
            &&& t@ == (ty, false)
            &&& effects@ == Set::<ResolvedEffect>::empty()
        },
        _ => false,
    }
}

/// The module of the builtins: one top-level node for each builtin
/// function, in the order of their numbers, and then the types `f32`, the
/// numeric type, and `bool`.
pub fn new_module() -> (r: Module)
    ensures
        r.wf(),
        r.ir().nodes.len() == BUILTIN_COUNT + 2,
        forall|k: int| 0 <= k < BUILTIN_COUNT ==> is_builtin_function(#[trigger] r.ir().nodes[k], k),
        is_builtin_type(r.ir().nodes[BUILTIN_COUNT as int], "f32"@, TypeModel::F32),
        is_builtin_type(r.ir().nodes[BUILTIN_COUNT + 1], "bool"@, TypeModel::Bool),
        r.top_level@ == Seq::new((BUILTIN_COUNT + 2) as nat, |k: int| k as NodeIdx),
        r.parser_errors@.len() == 0,
{
    let mut module = Module::empty();
    let mut k: usize = 0;
    assert(module.top_level@ =~= Seq::new(0nat, |k: int| k as NodeIdx));
    while k < BUILTIN_COUNT
        invariant
            k <= BUILTIN_COUNT,
            module.wf(),
            module.ir().nodes.len() == k,
            forall|j: int| 0 <= j < k ==> is_builtin_function(#[trigger] module.ir().nodes[j], j),
            module.top_level@ == Seq::new(k as nat, |k: int| k as NodeIdx),
            module.parser_errors@.len() == 0,
        decreases BUILTIN_COUNT - k,
    {
        let node = builtin(k);
        let ghost before = module.ir().nodes;
        let added = module.alloc_top_level(node);
        proof {
            assert(added);
            assert forall|j: int| 0 <= j < k + 1 implies is_builtin_function(
                #[trigger] module.ir().nodes[j],
                j,
            ) by {
                if j < k {
                    assert(module.ir().nodes[j] == before[j]);
                }
            }
            assert(module.top_level@ =~= Seq::new((k + 1) as nat, |k: int| k as NodeIdx));
        }
        k = k + 1;
    }
    let ghost functions = module.ir().nodes;
    let number = Node::BuiltinType {
        identifier: Identifier::Name(String::from_str("f32")),
        ty: ResolvedType::from_inner(InnerResolvedType::F32),
        effects: ResolvedEffects::new(),
    };
    let added = module.alloc_top_level(number);
    assert(added);
    let boolean = Node::BuiltinType {
        identifier: Identifier::Name(String::from_str("bool")),
        ty: ResolvedType::from_inner(InnerResolvedType::Bool),
        effects: ResolvedEffects::new(),
    };
    let added = module.alloc_top_level(boolean);
    proof {
        assert(added);
        assert forall|j: int| 0 <= j < BUILTIN_COUNT implies is_builtin_function(
            #[trigger] module.ir().nodes[j],
            j,
        ) by {
            assert(module.ir().nodes[j] == functions[j]);
        }
        assert(module.top_level@ =~= Seq::new((BUILTIN_COUNT + 2) as nat, |k: int| k as NodeIdx));
    }
    module
}

} // verus!

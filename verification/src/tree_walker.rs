//! The evaluator: an abstract machine that runs a system step by step,
//! and asks the host for whatever needs the store or a builtin function.

use crate::cache::{GlobalMap, NameMap};
use crate::hir::{Expr, GlobalIdx, IdentModel, Identifier, NodeIdx, Node, Operator};
use crate::machine::{
    entity_values, record_of, ActionModel, Awaiting, EvalError, EventModel, FrameModel,
    MachineModel, Mode, OutcomeModel,
};
use crate::module_index::{ModuleCollection, World};
use crate::report::ModuleID;
use crate::stork_value::{
    lemma_record_model, path_model, record_model, values_model, StorkValue, ValueModel,
};
use vstd::prelude::*;

verus! {

/// What the machine asks of the host.
#[derive(Debug)]
pub enum Action {
    /// Nothing: step again, with [`Event::Resume`].
    Continue,
    /// The value of the number literal; answered with [`Event::Value`].
    Number(String),
    /// A call of the builtin function at `function`; answered with
    /// [`Event::Value`], the unit value where the function has no result.
    Call { function: GlobalIdx, args: Vec<StorkValue> },
    /// The entities that the query at `query` matches; answered with
    /// [`Event::Entities`].
    Entities { query: GlobalIdx },
    /// A copy of a component; answered with [`Event::Value`], or with
    /// [`Event::Missing`].
    GetComponent { entity: u64, component: GlobalIdx },
    /// Whether the entity has the component; answered with a boolean
    /// [`Event::Value`].
    HasComponent { entity: u64, component: GlobalIdx },
    /// Replace the part at `path` of the component; answered with
    /// [`Event::Resume`].
    AssignComponent { entity: u64, component: GlobalIdx, path: Vec<String>, value: StorkValue },
    /// Give the entity the component, or overwrite it; answered with
    /// [`Event::Resume`].
    InsertComponent { entity: u64, component: GlobalIdx, value: StorkValue },
    /// Take the component from the entity; answered with
    /// [`Event::Resume`].
    RemoveComponent { entity: u64, component: GlobalIdx },
    GetResource { resource: GlobalIdx },
    HasResource { resource: GlobalIdx },
    AssignResource { resource: GlobalIdx, path: Vec<String>, value: StorkValue },
    InsertResource { resource: GlobalIdx, value: StorkValue },
    RemoveResource { resource: GlobalIdx },
    /// The run is over, with this value.
    Finished(StorkValue),
    /// The run is over, without a value.
    Failed(EvalError),
}

/// What the host tells the machine.
#[derive(Debug)]
pub enum Event {
    /// Go on: nothing was asked, or a change of the store was made.
    Resume,
    Value(StorkValue),
    Entities(Vec<u64>),
    /// There is no value where one was asked for.
    Missing,
}

impl View for Action {
    type V = ActionModel;

    open spec fn view(&self) -> ActionModel {
        match self {
            Action::Continue => ActionModel::Continue,
            Action::Number(text) => ActionModel::Number(text@),
            Action::Call { function, args } => ActionModel::Call {
                function: *function,
                args: values_model(args@),
            },
            Action::Entities { query } => ActionModel::Entities { query: *query },
            Action::GetComponent { entity, component } => ActionModel::GetComponent {
                entity: *entity,
                component: *component,
            },
            Action::HasComponent { entity, component } => ActionModel::HasComponent {
                entity: *entity,
                component: *component,
            },
            Action::AssignComponent { entity, component, path, value } => ActionModel::AssignComponent {
                entity: *entity,
                component: *component,
                path: path_model(path@),
                value: value@,
            },
            Action::InsertComponent { entity, component, value } => ActionModel::InsertComponent {
                entity: *entity,
                component: *component,
                value: value@,
            },
            Action::RemoveComponent { entity, component } => ActionModel::RemoveComponent {
                entity: *entity,
                component: *component,
            },
            Action::GetResource { resource } => ActionModel::GetResource { resource: *resource },
            Action::HasResource { resource } => ActionModel::HasResource { resource: *resource },
            Action::AssignResource { resource, path, value } => ActionModel::AssignResource {
                resource: *resource,
                path: path_model(path@),
                value: value@,
            },
            Action::InsertResource { resource, value } => ActionModel::InsertResource {
                resource: *resource,
                value: value@,
            },
            Action::RemoveResource { resource } => ActionModel::RemoveResource {
                resource: *resource,
            },
            Action::Finished(v) => ActionModel::Finished(v@),
            Action::Failed(e) => ActionModel::Failed(*e),
        }
    }
}

impl View for Event {
    type V = EventModel;

    open spec fn view(&self) -> EventModel {
        match self {
            Event::Resume => EventModel::Resume,
            Event::Value(v) => EventModel::Value(v@),
            Event::Entities(es) => EventModel::Entities(es@),
            Event::Missing => EventModel::Missing,
        }
    }
}

/// One node that is being evaluated.
struct Frame {
    node: NodeIdx,
    pc: usize,
    acc: Vec<StorkValue>,
    mode: Mode,
}

impl View for Frame {
    type V = FrameModel;

    closed spec fn view(&self) -> FrameModel {
        FrameModel { node: self.node, pc: self.pc, acc: values_model(self.acc@), mode: self.mode }
    }
}

enum Outcome {
    Push { child: NodeIdx, mode: Mode, pc: usize, acc: Vec<StorkValue> },
    BindPush {
        def: GlobalIdx,
        value: StorkValue,
        child: NodeIdx,
        mode: Mode,
        pc: usize,
        acc: Vec<StorkValue>,
    },
    Host { action: Action, awaiting: Awaiting, pc: usize, acc: Vec<StorkValue> },
    Return(StorkValue),
    BindReturn { def: GlobalIdx, value: StorkValue },
    ApplyReturn { def: GlobalIdx, path: Vec<String>, value: StorkValue },
    Fail(EvalError),
}

impl View for Outcome {
    type V = OutcomeModel;

    closed spec fn view(&self) -> OutcomeModel {
        match self {
            Outcome::Push { child, mode, pc, acc } => OutcomeModel::Push {
                child: *child,
                mode: *mode,
                pc: *pc,
                acc: values_model(acc@),
            },
            Outcome::BindPush { def, value, child, mode, pc, acc } => OutcomeModel::BindPush {
                def: *def,
                value: value@,
                child: *child,
                mode: *mode,
                pc: *pc,
                acc: values_model(acc@),
            },
            Outcome::Host { action, awaiting, pc, acc } => OutcomeModel::Host {
                action: action@,
                awaiting: *awaiting,
                pc: *pc,
                acc: values_model(acc@),
            },
            Outcome::Return(v) => OutcomeModel::Return(v@),
            Outcome::BindReturn { def, value } => OutcomeModel::BindReturn {
                def: *def,
                value: value@,
            },
            Outcome::ApplyReturn { def, path, value } => OutcomeModel::ApplyReturn {
                def: *def,
                path: path_model(path@),
                value: value@,
            },
            Outcome::Fail(e) => OutcomeModel::Fail(*e),
        }
    }
}

/// The models of the frames.
spec fn frames_model(fs: Seq<Frame>) -> Seq<FrameModel> {
    Seq::new(fs.len(), |i: int| fs[i]@)
}

/// The model of the variables.
pub open spec fn variables_model(vars: Map<GlobalIdx, StorkValue>) -> Map<GlobalIdx, ValueModel> {
    Map::new(|g: GlobalIdx| vars.contains_key(g), |g: GlobalIdx| vars[g]@)
}

/// The model of a value that there may be.
pub open spec fn input_model(v: Option<StorkValue>) -> Option<ValueModel> {
    match v {
        Some(v) => Some(v@),
        None => None,
    }
}

/// The node `i` of module `m`, if there is one.
fn node_at(modules: &ModuleCollection, m: ModuleID, i: NodeIdx) -> (r: Option<&Node>)
    ensures
        match r {
            Some(n) => modules@.node_at(m, i) == Some(*n),
            None => modules@.node_at(m, i).is_none(),
        },
{
    if m < modules.len() {
        modules.get_ref(m).node(i)
    } else {
        None
    }
}

/// The definition that the node `i` of module `m` stands for.
fn def_of(names: &NameMap, m: ModuleID, i: NodeIdx) -> (r: Option<GlobalIdx>)
    ensures
        r == crate::machine::def_of(names@, m, i),
{
    match names.get(GlobalIdx(m, i)) {
        Some(def) => Some(def.definition()),
        None => None,
    }
}

fn is_builtin(modules: &ModuleCollection, f: GlobalIdx) -> (r: bool)
    ensures
        r == modules@.is_builtin(f),
{
    match node_at(modules, f.module(), f.idx()) {
        Some(Node::BuiltinFunction { .. }) => true,
        _ => false,
    }
}

fn is_not_builtin(modules: &ModuleCollection, f: GlobalIdx) -> (r: bool)
    ensures
        r == modules@.is_not_builtin(f),
{
    match node_at(modules, f.module(), f.idx()) {
        Some(Node::BuiltinFunction { identifier, .. }) => identifier.same(
            &Identifier::Operator(Operator::Not),
        ),
        _ => false,
    }
}

fn member_name(modules: &ModuleCollection, m: ModuleID, i: NodeIdx) -> (r: Option<&String>)
    ensures
        match r {
            Some(n) => modules@.member_name(m, i) == Some(n@),
            None => modules@.member_name(m, i).is_none(),
        },
{
    match node_at(modules, m, i) {
        Some(Node::Expr(Expr::Identifier(Identifier::Name(name)))) => Some(name),
        _ => None,
    }
}

/// The target of a chain of member accesses that ends in the node `i`,
/// and the names of the members from the base out.
pub fn drill_into_member_base(modules: &ModuleCollection, m: ModuleID, i: NodeIdx) -> (r: Option<
    (NodeIdx, Vec<String>),
>)
    ensures
        match r {
            Some((target, path)) => modules@.drill(m, i) == Some((target, path_model(path@))),
            None => modules@.drill(m, i).is_none(),
        },
    decreases i,
{
    match node_at(modules, m, i) {
        Some(Node::Expr(Expr::MemberAccess { base, member })) => {
            let name = match member_name(modules, m, *member) {
                Some(name) => name,
                None => {
                    return None;
                },
            };
            if *base < i {
                match drill_into_member_base(modules, m, *base) {
                    Some((target, path)) => {
                        let mut path = path;
                        let ghost before = path@;
                        let name = name.clone();
                        path.push(name);
                        assert(path_model(path@) =~= path_model(before).push(name@));
                        Some((target, path))
                    },
                    None => None,
                }
            } else {
                None
            }
        },
        _ => {
            let path: Vec<String> = Vec::new();
            assert(path_model(path@) =~= Seq::<Seq<char>>::empty());
            Some((i, path))
        },
    }
}

/// Copies of the values but the first.
fn copy_tail(values: &Vec<StorkValue>) -> (r: Vec<StorkValue>)
    requires
        values@.len() > 0,
    ensures
        values_model(r@) == values_model(values@).skip(1),
{
    let mut out: Vec<StorkValue> = Vec::new();
    let mut k: usize = 1;
    while k < values.len()
        invariant
            1 <= k <= values@.len(),
            out@.len() == k - 1,
            forall|j: int| 0 <= j < out@.len() ==> (#[trigger] out@[j])@ == values@[j + 1]@,
        decreases values@.len() - k,
    {
        out.push(values[k].clone());
        k = k + 1;
    }
    assert(values_model(out@) =~= values_model(values@).skip(1));
    out
}

/// The record of the fields `fields` with the values `values`.
fn make_record(fields: &Vec<(String, NodeIdx)>, values: Vec<StorkValue>) -> (r: StorkValue)
    requires
        values@.len() == fields@.len(),
    ensures
        r@ == record_of(fields@, values_model(values@)),
{
    let ghost all = values_model(values@);
    let mut values = values;
    let mut out: Vec<(String, StorkValue)> = Vec::new();
    let n = fields.len();
    let mut k: usize = n;
    // The values are taken from the back, so the record is filled from the
    // back and turned round at the end.
    let mut rev: Vec<(String, StorkValue)> = Vec::new();
    while k > 0
        invariant
            k <= n,
            n == fields@.len(),
            values@.len() == k,
            all.len() == n,
            forall|j: int| 0 <= j < k ==> (#[trigger] values@[j])@ == all[j],
            rev@.len() == n - k,
            forall|j: int|
                0 <= j < rev@.len() ==> (#[trigger] rev@[j]).0@ == fields@[n - 1 - j].0@ && rev@[j].1@
                    == all[n - 1 - j],
        decreases k,
    {
        match values.pop() {
            Some(v) => {
                rev.push((fields[k - 1].0.clone(), v));
            },
            None => {},
        }
        k = k - 1;
    }
    while rev.len() > 0
        invariant
            n == fields@.len(),
            all.len() == n,
            rev@.len() + out@.len() == n,
            forall|j: int|
                0 <= j < rev@.len() ==> (#[trigger] rev@[j]).0@ == fields@[n - 1 - j].0@ && rev@[j].1@
                    == all[n - 1 - j],
            forall|j: int|
                0 <= j < out@.len() ==> (#[trigger] out@[j]).0@ == fields@[j].0@ && out@[j].1@
                    == all[j],
        decreases rev@.len(),
    {
        match rev.pop() {
            Some(f) => {
                out.push(f);
            },
            None => {},
        }
    }
    proof {
        lemma_record_model(out);
        assert(record_model(out@) =~= Seq::new(fields@.len(), |i: int| (fields@[i].0@, all[i])));
    }
    StorkValue::Struct(out)
}

/// The frame is done with the value that it was given.
fn give_back(input: Option<StorkValue>) -> (r: Outcome)
    ensures
        r@ == crate::machine::give_back(input_model(input)),
{
    match input {
        Some(v) => Outcome::Return(v),
        None => Outcome::Fail(EvalError::UnexpectedEvent),
    }
}


/// An access to the component `component` of the entity `input`.
fn access_component(
    names: &NameMap,
    m: ModuleID,
    component: NodeIdx,
    mode: Mode,
    input: Option<StorkValue>,
    pc: usize,
    acc: Vec<StorkValue>,
    Ghost(w): Ghost<World>,
) -> (r: Outcome)
    ensures
        r@ == w.access_component(
            names@,
            m,
            component,
            mode,
            input_model(input),
            pc,
            values_model(acc@),
        ),
{
    match input {
        Some(StorkValue::Entity(entity)) => match def_of(names, m, component) {
            Some(component) => Outcome::Host {
                action: match mode {
                    Mode::Truthy => Action::HasComponent { entity, component },
                    Mode::Value => Action::GetComponent { entity, component },
                },
                awaiting: Awaiting::Value,
                pc,
                acc,
            },
            None => Outcome::Fail(EvalError::UnresolvedName),
        },
        Some(_) => Outcome::Fail(EvalError::NotAnEntity),
        None => Outcome::Fail(EvalError::UnexpectedEvent),
    }
}

fn plan_call(
    modules: &ModuleCollection,
    names: &NameMap,
    variables: &GlobalMap<StorkValue>,
    m: ModuleID,
    i: NodeIdx,
    function: NodeIdx,
    args: &Vec<NodeIdx>,
    pc: usize,
    acc: Vec<StorkValue>,
    mode: Mode,
    input: Option<StorkValue>,
) -> (r: Outcome)
    requires
        pc < usize::MAX,
    ensures
        r@ == modules@.plan_expr(
            names@,
            variables_model(variables@),
            m,
            i,
            Expr::FunctionCall { function, args: *args },
            pc,
            values_model(acc@),
            mode,
            input_model(input),
        ),
{
    if pc == 0 {
        return Outcome::Push { child: function, mode: Mode::Value, pc: 1, acc };
    }
    if pc - 1 > args.len() {
        return give_back(input);
    }
    let v = match input {
        Some(v) => v,
        None => {
            return Outcome::Fail(EvalError::UnexpectedEvent);
        },
    };
    let mut acc = acc;
    let ghost before = acc@;
    acc.push(v);
    assert(values_model(acc@) =~= values_model(before).push(v@));
    let f = match acc[0].as_function() {
        Some(f) => f,
        None => {
            return Outcome::Fail(EvalError::NotAFunction);
        },
    };
    if !is_builtin(modules, f) {
        return Outcome::Return(StorkValue::Function(f));
    }
    if pc - 1 < args.len() {
        let mode = if is_not_builtin(modules, f) {
            Mode::Truthy
        } else {
            Mode::Value
        };
        Outcome::Push { child: args[pc - 1], mode, pc: pc + 1, acc }
    } else {
        let args = copy_tail(&acc);
        Outcome::Host {
            action: Action::Call { function: f, args },
            awaiting: Awaiting::Value,
            pc: pc + 1,
            acc,
        }
    }
}

fn plan_assign(
    modules: &ModuleCollection,
    names: &NameMap,
    variables: &GlobalMap<StorkValue>,
    m: ModuleID,
    i: NodeIdx,
    lvalue: NodeIdx,
    expr: NodeIdx,
    pc: usize,
    acc: Vec<StorkValue>,
    mode: Mode,
    input: Option<StorkValue>,
) -> (r: Outcome)
    requires
        pc < usize::MAX,
    ensures
        r@ == modules@.plan_expr(
            names@,
            variables_model(variables@),
            m,
            i,
            Expr::Assign { lvalue, expr },
            pc,
            values_model(acc@),
            mode,
            input_model(input),
        ),
{
    if pc == 0 {
        return Outcome::Push { child: expr, mode: Mode::Value, pc: 1, acc };
    }
    if pc >= 3 {
        return Outcome::Return(StorkValue::Unit);
    }
    let v = match input {
        Some(v) => v,
        None => {
            return Outcome::Fail(EvalError::UnexpectedEvent);
        },
    };
    let (target, path) = match drill_into_member_base(modules, m, lvalue) {
        Some(r) => r,
        None => {
            return Outcome::Fail(EvalError::BadMember);
        },
    };
    match node_at(modules, m, target) {
        Some(Node::Expr(Expr::Identifier(_))) => {
            if pc == 1 {
                match def_of(names, m, target) {
                    Some(def) => Outcome::ApplyReturn { def, path, value: v },
                    None => Outcome::Fail(EvalError::UnresolvedName),
                }
            } else {
                Outcome::Fail(EvalError::UnexpectedEvent)
            }
        },
        Some(Node::Expr(Expr::ComponentAccess { entity, component })) => {
            if pc == 1 {
                let mut kept: Vec<StorkValue> = Vec::new();
                kept.push(v);
                assert(values_model(kept@) =~= seq![v@]);
                Outcome::Push { child: *entity, mode: Mode::Value, pc: 2, acc: kept }
            } else if acc.len() != 1 {
                Outcome::Fail(EvalError::UnexpectedEvent)
            } else {
                match v.as_entity() {
                    Some(e) => match def_of(names, m, *component) {
                        Some(component) => {
                            let value = acc[0].clone();
                            Outcome::Host {
                                action: Action::AssignComponent {
                                    entity: e,
                                    component,
                                    path,
                                    value,
                                },
                                awaiting: Awaiting::Done,
                                pc: 3,
                                acc,
                            }
                        },
                        None => Outcome::Fail(EvalError::UnresolvedName),
                    },
                    None => Outcome::Fail(EvalError::NotAnEntity),
                }
            }
        },
        Some(Node::Expr(Expr::ResourceAccess { resource })) => {
            if pc == 1 {
                match def_of(names, m, *resource) {
                    Some(resource) => Outcome::Host {
                        action: Action::AssignResource { resource, path, value: v },
                        awaiting: Awaiting::Done,
                        pc: 3,
                        acc,
                    },
                    None => Outcome::Fail(EvalError::UnresolvedName),
                }
            } else {
                Outcome::Fail(EvalError::UnexpectedEvent)
            }
        },
        _ => Outcome::Fail(EvalError::BadTarget),
    }
}

fn plan_let(
    modules: &ModuleCollection,
    names: &NameMap,
    variables: &GlobalMap<StorkValue>,
    m: ModuleID,
    i: NodeIdx,
    lvalue: NodeIdx,
    expr: NodeIdx,
    pc: usize,
    acc: Vec<StorkValue>,
    mode: Mode,
    input: Option<StorkValue>,
) -> (r: Outcome)
    requires
        pc < usize::MAX,
    ensures
        r@ == modules@.plan_expr(
            names@,
            variables_model(variables@),
            m,
            i,
            Expr::Let { lvalue, expr },
            pc,
            values_model(acc@),
            mode,
            input_model(input),
        ),
{
    if pc >= 3 {
        return Outcome::Return(StorkValue::Unit);
    }
    match node_at(modules, m, lvalue) {
        Some(Node::Expr(Expr::Identifier(_))) => {
            if pc == 0 {
                Outcome::Push { child: expr, mode: Mode::Value, pc: 1, acc }
            } else {
                match input {
                    Some(v) => Outcome::BindReturn { def: GlobalIdx(m, lvalue), value: v },
                    None => Outcome::Fail(EvalError::UnexpectedEvent),
                }
            }
        },
        Some(Node::Expr(Expr::ComponentAccess { entity, component })) => {
            if pc == 0 {
                Outcome::Push { child: *entity, mode: Mode::Value, pc: 1, acc }
            } else if pc == 1 {
                match input {
                    Some(StorkValue::Entity(e)) => {
                        let mut kept: Vec<StorkValue> = Vec::new();
                        kept.push(StorkValue::Entity(e));
                        assert(values_model(kept@) =~= seq![ValueModel::Entity(e)]);
                        Outcome::Push { child: expr, mode: Mode::Value, pc: 2, acc: kept }
                    },
                    Some(_) => Outcome::Fail(EvalError::NotAnEntity),
                    None => Outcome::Fail(EvalError::UnexpectedEvent),
                }
            } else {
                let v = match input {
                    Some(v) => v,
                    None => {
                        return Outcome::Fail(EvalError::UnexpectedEvent);
                    },
                };
                let component = match def_of(names, m, *component) {
                    Some(c) => c,
                    None => {
                        return Outcome::Fail(EvalError::UnresolvedName);
                    },
                };
                if acc.len() != 1 {
                    return Outcome::Fail(EvalError::UnexpectedEvent);
                }
                match acc[0].as_entity() {
                    Some(e) => Outcome::Host {
                        action: Action::InsertComponent { entity: e, component, value: v },
                        awaiting: Awaiting::Done,
                        pc: 3,
                        acc,
                    },
                    None => Outcome::Fail(EvalError::UnexpectedEvent),
                }
            }
        },
        Some(Node::Expr(Expr::ResourceAccess { resource })) => {
            if pc == 0 {
                Outcome::Push { child: expr, mode: Mode::Value, pc: 1, acc }
            } else {
                let v = match input {
                    Some(v) => v,
                    None => {
                        return Outcome::Fail(EvalError::UnexpectedEvent);
                    },
                };
                match def_of(names, m, *resource) {
                    Some(resource) => Outcome::Host {
                        action: Action::InsertResource { resource, value: v },
                        awaiting: Awaiting::Done,
                        pc: 3,
                        acc,
                    },
                    None => Outcome::Fail(EvalError::UnresolvedName),
                }
            }
        },
        _ => Outcome::Fail(EvalError::BadTarget),
    }
}

fn plan_del(
    modules: &ModuleCollection,
    names: &NameMap,
    variables: &GlobalMap<StorkValue>,
    m: ModuleID,
    i: NodeIdx,
    expr: NodeIdx,
    pc: usize,
    acc: Vec<StorkValue>,
    mode: Mode,
    input: Option<StorkValue>,
) -> (r: Outcome)
    requires
        pc < usize::MAX,
    ensures
        r@ == modules@.plan_expr(
            names@,
            variables_model(variables@),
            m,
            i,
            Expr::Del { expr },
            pc,
            values_model(acc@),
            mode,
            input_model(input),
        ),
{
    if pc >= 2 {
        return Outcome::Return(StorkValue::Unit);
    }
    match node_at(modules, m, expr) {
        Some(Node::Expr(Expr::ComponentAccess { entity, component })) => {
            if pc == 0 {
                Outcome::Push { child: *entity, mode: Mode::Value, pc: 1, acc }
            } else {
                let v = match input {
                    Some(v) => v,
                    None => {
                        return Outcome::Fail(EvalError::UnexpectedEvent);
                    },
                };
                match v.as_entity() {
                    Some(e) => match def_of(names, m, *component) {
                        Some(component) => Outcome::Host {
                            action: Action::RemoveComponent { entity: e, component },
                            awaiting: Awaiting::Done,
                            pc: 2,
                            acc,
                        },
                        None => Outcome::Fail(EvalError::UnresolvedName),
                    },
                    None => Outcome::Fail(EvalError::NotAnEntity),
                }
            }
        },
        Some(Node::Expr(Expr::ResourceAccess { resource })) => match def_of(names, m, *resource) {
            Some(resource) => Outcome::Host {
                action: Action::RemoveResource { resource },
                awaiting: Awaiting::Done,
                pc: 2,
                acc,
            },
            None => Outcome::Fail(EvalError::UnresolvedName),
        },
        _ => Outcome::Fail(EvalError::BadTarget),
    }
}

fn plan_struct(
    modules: &ModuleCollection,
    names: &NameMap,
    variables: &GlobalMap<StorkValue>,
    m: ModuleID,
    i: NodeIdx,
    ident: &Identifier,
    fields: &Vec<(String, NodeIdx)>,
    pc: usize,
    acc: Vec<StorkValue>,
    mode: Mode,
    input: Option<StorkValue>,
) -> (r: Outcome)
    requires
        pc < usize::MAX,
    ensures
        r@ == modules@.plan_expr(
            names@,
            variables_model(variables@),
            m,
            i,
            Expr::Struct { ident: *ident, fields: *fields },
            pc,
            values_model(acc@),
            mode,
            input_model(input),
        ),
{
    let mut acc = acc;
    if pc > 0 {
        match input {
            Some(v) => {
                let ghost before = acc@;
                acc.push(v);
                assert(values_model(acc@) =~= values_model(before).push(v@));
            },
            None => {
                return Outcome::Fail(EvalError::UnexpectedEvent);
            },
        }
    }
    if pc < fields.len() {
        Outcome::Push { child: fields[pc].1, mode: Mode::Value, pc: pc + 1, acc }
    } else if acc.len() == fields.len() {
        Outcome::Return(make_record(fields, acc))
    } else {
        Outcome::Fail(EvalError::UnexpectedEvent)
    }
}

fn plan_expr(
    modules: &ModuleCollection,
    names: &NameMap,
    variables: &GlobalMap<StorkValue>,
    m: ModuleID,
    i: NodeIdx,
    e: &Expr,
    pc: usize,
    acc: Vec<StorkValue>,
    mode: Mode,
    input: Option<StorkValue>,
) -> (r: Outcome)
    requires
        pc < usize::MAX,
    ensures
        r@ == modules@.plan_expr(
            names@,
            variables_model(variables@),
            m,
            i,
            *e,
            pc,
            values_model(acc@),
            mode,
            input_model(input),
        ),
{
    let g = GlobalIdx(m, i);
    match e {
        Expr::Block(ids) => {
            if pc < ids.len() {
                Outcome::Push { child: ids[pc], mode: Mode::Value, pc: pc + 1, acc }
            } else if pc == 0 {
                Outcome::Return(StorkValue::Unit)
            } else {
                give_back(input)
            }
        },
        Expr::Identifier(_) => match def_of(names, m, i) {
            None => Outcome::Fail(EvalError::UnresolvedName),
            Some(def) => {
                if is_builtin(modules, def) {
                    Outcome::Return(StorkValue::Function(def))
                } else {
                    match variables.get_ref(def) {
                        Some(v) => Outcome::Return(v.clone()),
                        None => Outcome::Fail(EvalError::UnsetVariable),
                    }
                }
            },
        },
        Expr::Number(text) => {
            if pc == 0 {
                Outcome::Host {
                    action: Action::Number(text.clone()),
                    awaiting: Awaiting::Value,
                    pc: 1,
                    acc,
                }
            } else {
                give_back(input)
            }
        },
        Expr::FunctionCall { function, args } => plan_call(
            modules,
            names,
            variables,
            m,
            i,
            *function,
            args,
            pc,
            acc,
            mode,
            input,
        ),
        Expr::Query { block, .. } => {
            if pc == 0 {
                Outcome::Host {
                    action: Action::Entities { query: g },
                    awaiting: Awaiting::Entities,
                    pc: 1,
                    acc,
                }
            } else if pc - 1 < acc.len() {
                let value = acc[pc - 1].clone();
                Outcome::BindPush {
                    def: g,
                    value,
                    child: *block,
                    mode: Mode::Value,
                    pc: pc + 1,
                    acc,
                }
            } else {
                Outcome::Return(StorkValue::Unit)
            }
        },
        Expr::Poison => Outcome::Fail(EvalError::Poison),
        Expr::ComponentAccess { entity, component } => {
            if pc == 0 {
                Outcome::Push { child: *entity, mode: Mode::Value, pc: 1, acc }
            } else if pc == 1 {
                access_component(names, m, *component, mode, input, 2, acc, Ghost(modules@))
            } else {
                give_back(input)
            }
        },
        Expr::ResourceAccess { resource } => {
            if pc == 0 {
                match def_of(names, m, *resource) {
                    Some(resource) => Outcome::Host {
                        action: match mode {
                            Mode::Truthy => Action::HasResource { resource },
                            Mode::Value => Action::GetResource { resource },
                        },
                        awaiting: Awaiting::Value,
                        pc: 1,
                        acc,
                    },
                    None => Outcome::Fail(EvalError::UnresolvedName),
                }
            } else {
                give_back(input)
            }
        },
        Expr::MemberAccess { base, member } => {
            if pc == 0 {
                Outcome::Push { child: *base, mode: Mode::Value, pc: 1, acc }
            } else {
                match input {
                    None => Outcome::Fail(EvalError::UnexpectedEvent),
                    Some(v) => match member_name(modules, m, *member) {
                        None => Outcome::Fail(EvalError::BadMember),
                        Some(name) => match v.field(name) {
                            Some(v) => Outcome::Return(v),
                            None => Outcome::Fail(EvalError::NoSuchField),
                        },
                    },
                }
            }
        },
        Expr::Assign { lvalue, expr } => plan_assign(
            modules,
            names,
            variables,
            m,
            i,
            *lvalue,
            *expr,
            pc,
            acc,
            mode,
            input,
        ),
        Expr::Let { lvalue, expr } => plan_let(
            modules,
            names,
            variables,
            m,
            i,
            *lvalue,
            *expr,
            pc,
            acc,
            mode,
            input,
        ),
        Expr::Del { expr } => plan_del(modules, names, variables, m, i, *expr, pc, acc, mode, input),
        Expr::If { cond, expr, otherwise } => {
            if pc == 0 {
                Outcome::Push { child: *cond, mode: Mode::Truthy, pc: 1, acc }
            } else if pc == 1 {
                match input {
                    Some(StorkValue::Bool(true)) => Outcome::Push {
                        child: *expr,
                        mode: Mode::Value,
                        pc: 2,
                        acc,
                    },
                    Some(StorkValue::Bool(false)) => match otherwise {
                        Some(otherwise) => Outcome::Push {
                            child: *otherwise,
                            mode: Mode::Value,
                            pc: 2,
                            acc,
                        },
                        None => Outcome::Return(StorkValue::Unit),
                    },
                    Some(_) => Outcome::Fail(EvalError::NotABool),
                    None => Outcome::Fail(EvalError::UnexpectedEvent),
                }
            } else {
                Outcome::Return(StorkValue::Unit)
            }
        },
        Expr::While { cond, expr } => {
            if pc == 1 {
                match input {
                    Some(StorkValue::Bool(true)) => Outcome::Push {
                        child: *expr,
                        mode: Mode::Value,
                        pc: 0,
                        acc,
                    },
                    Some(StorkValue::Bool(false)) => Outcome::Return(StorkValue::Unit),
                    Some(_) => Outcome::Fail(EvalError::NotABool),
                    None => Outcome::Fail(EvalError::UnexpectedEvent),
                }
            } else {
                Outcome::Push { child: *cond, mode: Mode::Truthy, pc: 1, acc }
            }
        },
        Expr::Struct { ident, fields } => plan_struct(
            modules,
            names,
            variables,
            m,
            i,
            ident,
            fields,
            pc,
            acc,
            mode,
            input,
        ),
    }
}

/// What becomes of a frame for the node `i` of module `m`.
fn plan(
    modules: &ModuleCollection,
    names: &NameMap,
    variables: &GlobalMap<StorkValue>,
    m: ModuleID,
    i: NodeIdx,
    pc: usize,
    acc: Vec<StorkValue>,
    mode: Mode,
    input: Option<StorkValue>,
) -> (r: Outcome)
    ensures
        r@ == modules@.plan(
            names@,
            variables_model(variables@),
            m,
            i,
            pc,
            values_model(acc@),
            mode,
            input_model(input),
        ),
{
    if pc == usize::MAX {
        return Outcome::Fail(EvalError::BadNode);
    }
    match node_at(modules, m, i) {
        Some(Node::System(system)) => {
            if pc == 0 {
                Outcome::Push { child: system.block, mode: Mode::Value, pc: 1, acc }
            } else {
                give_back(input)
            }
        },
        Some(Node::Expr(e)) => plan_expr(modules, names, variables, m, i, e, pc, acc, mode, input),
        _ => Outcome::Fail(EvalError::BadNode),
    }
}


/// The machine that runs one system.
pub struct VM {
    module: ModuleID,
    frames: Vec<Frame>,
    variables: GlobalMap<StorkValue>,
    returned: Option<StorkValue>,
    awaiting: Awaiting,
}

impl View for VM {
    type V = MachineModel;

    closed spec fn view(&self) -> MachineModel {
        MachineModel {
            module: self.module,
            frames: frames_model(self.frames@),
            variables: variables_model(self.variables@),
            returned: input_model(self.returned),
            awaiting: self.awaiting,
        }
    }
}

/// The entities as values.
fn entities_to_values(es: &Vec<u64>) -> (r: Vec<StorkValue>)
    ensures
        values_model(r@) == entity_values(es@),
{
    let mut out: Vec<StorkValue> = Vec::new();
    let mut k: usize = 0;
    while k < es.len()
        invariant
            k <= es@.len(),
            out@.len() == k,
            forall|j: int| 0 <= j < k ==> (#[trigger] out@[j])@ == ValueModel::Entity(es@[j]),
        decreases es@.len() - k,
    {
        out.push(StorkValue::Entity(es[k]));
        k = k + 1;
    }
    assert(values_model(out@) =~= entity_values(es@));
    out
}

impl VM {
    /// A machine that is about to run the system at `system`, with no
    /// variable bound.
    pub fn new(system: GlobalIdx) -> (r: VM)
        ensures
            r@ == (MachineModel {
                module: system.0,
                frames: seq![
                    FrameModel { node: system.1, pc: 0, acc: Seq::empty(), mode: Mode::Value },
                ],
                variables: Map::empty(),
                returned: None,
                awaiting: Awaiting::Nothing,
            }),
    {
        let mut frames: Vec<Frame> = Vec::new();
        let acc: Vec<StorkValue> = Vec::new();
        assert(values_model(acc@) =~= Seq::<ValueModel>::empty());
        frames.push(Frame { node: system.1, pc: 0, acc, mode: Mode::Value });
        let r = VM {
            module: system.0,
            frames,
            variables: GlobalMap::new(),
            returned: None,
            awaiting: Awaiting::Nothing,
        };
        assert(r@.frames =~= seq![
            FrameModel { node: system.1, pc: 0, acc: Seq::empty(), mode: Mode::Value },
        ]);
        assert(r@.variables =~= Map::<GlobalIdx, ValueModel>::empty());
        r
    }

    /// Whether the run is over.
    pub fn is_finished(&self) -> (r: bool)
        ensures
            r == (self@.frames.len() == 0),
    {
        self.frames.len() == 0
    }

    /// A copy of the value of the variable that the node at `def`
    /// declares, if it is bound.
    pub fn variable(&self, def: GlobalIdx) -> (r: Option<StorkValue>)
        ensures
            match r {
                Some(v) => self@.variables.contains_key(def) && self@.variables[def] == v@,
                None => !self@.variables.contains_key(def),
            },
    {
        match self.variables.get_ref(def) {
            Some(v) => Some(v.clone()),
            None => None,
        }
    }

    fn halt(&mut self)
        ensures
            final(self)@ == old(self)@.halted(),
    {
        self.frames = Vec::new();
        self.returned = None;
        self.awaiting = Awaiting::Nothing;
        assert(final(self)@.frames =~= Seq::<FrameModel>::empty());
    }

    fn bind(&mut self, def: GlobalIdx, value: StorkValue)
        ensures
            final(self)@ == (MachineModel {
                variables: old(self)@.variables.insert(def, value@),
                ..old(self)@
            }),
    {
        self.variables.set(def, value);
        assert(final(self)@.variables =~= old(self)@.variables.insert(def, value@));
    }

    /// Hands `v` to what waits for the frame that was on top, which was
    /// evaluated in `mode` and is done. `whole` is the machine with that
    /// frame still on top.
    fn pop(&mut self, mode: Mode, v: StorkValue, Ghost(whole): Ghost<MachineModel>) -> (r: Action)
        requires
            whole.module == old(self)@.module,
            whole.variables == old(self)@.variables,
            whole.frames.len() > 0,
            whole.frames.drop_last() == old(self)@.frames,
            whole.frames.last().mode == mode,
        ensures
            (final(self)@, r@) == whole.pop(v@),
    {
        let is_bool = match v {
            StorkValue::Bool(_) => true,
            _ => false,
        };
        let truthy = match mode {
            Mode::Truthy => true,
            Mode::Value => false,
        };
        assert(self@.frames.len() == whole.frames.len() - 1);
        if truthy && !is_bool {
            self.halt();
            Action::Failed(EvalError::NotABool)
        } else if self.frames.len() == 0 {
            self.halt();
            Action::Finished(v)
        } else {
            self.returned = Some(v);
            self.awaiting = Awaiting::Nothing;
            Action::Continue
        }
    }

    /// One step: takes what the host tells, moves the frame on top, and
    /// returns what the machine asks of the host next. `modules` and
    /// `names` are those of the compilation that the system is of.
    pub fn step(&mut self, modules: &ModuleCollection, names: &NameMap, event: Event) -> (r: Action)
        ensures
            (final(self)@, r@) == old(self)@.step(modules@, names@, event@),
    {
        let ghost before = self@;
        if self.frames.len() == 0 {
            self.halt();
            return Action::Failed(EvalError::NotRunning);
        }
        let waiting = self.awaiting;
        let missing = match event {
            Event::Missing => true,
            _ => false,
        };
        if waiting == Awaiting::Value && missing {
            self.halt();
            return Action::Failed(EvalError::MissingValue);
        }
        let mut returned: Option<StorkValue> = None;
        std::mem::swap(&mut returned, &mut self.returned);
        let top = match self.frames.pop() {
            Some(top) => top,
            None => {
                self.halt();
                return Action::Failed(EvalError::NotRunning);
            },
        };
        let ghost below = frames_model(self.frames@);
        assert(below =~= before.frames.drop_last());
        assert(top@ == before.frames.last());
        let Frame { node, pc, acc, mode } = top;
        let ghost ev = event@;
        let (input, acc) = match (waiting, event) {
            (Awaiting::Nothing, Event::Resume) => (returned, acc),
            (Awaiting::Done, Event::Resume) => (None, acc),
            (Awaiting::Value, Event::Value(v)) => (Some(v), acc),
            (Awaiting::Entities, Event::Entities(es)) => (None, entities_to_values(&es)),
            _ => {
                self.halt();
                return Action::Failed(EvalError::UnexpectedEvent);
            },
        };
        assert(before.receive(ev) == Some((input_model(input), values_model(acc@))));
        let outcome = plan(modules, names, &self.variables, self.module, node, pc, acc, mode, input);
        let ghost planned = outcome@;
        assert(before.step(modules@, names@, ev) == before.apply(planned));
        proof {
            let whole = MachineModel {
                module: self@.module,
                frames: self@.frames.push(before.frames.last()),
                variables: self@.variables,
                returned: before.returned,
                awaiting: before.awaiting,
            };
            assert(whole.frames =~= before.frames);
            assert(whole == before);
        }
        self.apply(node, mode, outcome, Ghost(before.frames.last()), Ghost(before.returned), Ghost(before.awaiting))
    }

    /// Moves the machine as `outcome` says, the frame that was on top
    /// being for `node` in `mode`.
    fn apply(
        &mut self,
        node: NodeIdx,
        mode: Mode,
        outcome: Outcome,
        Ghost(top): Ghost<FrameModel>,
        Ghost(returned): Ghost<Option<ValueModel>>,
        Ghost(awaiting): Ghost<Awaiting>,
    ) -> (r: Action)
        requires
            top.node == node,
            top.mode == mode,
        ensures
            (final(self)@, r@) == (MachineModel {
                module: old(self)@.module,
                frames: old(self)@.frames.push(top),
                variables: old(self)@.variables,
                returned,
                awaiting,
            }).apply(outcome@),
    {
        let ghost here = self@;
        let ghost before = MachineModel {
            module: here.module,
            frames: here.frames.push(top),
            variables: here.variables,
            returned,
            awaiting,
        };
        assert(before.frames.drop_last() =~= here.frames);
        assert(before.frames.last() == top);
        match outcome {
            Outcome::Push { child, mode: child_mode, pc, acc } => {
                self.frames.push(Frame { node, pc, acc, mode });
                let empty: Vec<StorkValue> = Vec::new();
                assert(values_model(empty@) =~= Seq::<ValueModel>::empty());
                self.frames.push(Frame { node: child, pc: 0, acc: empty, mode: child_mode });
                self.awaiting = Awaiting::Nothing;
                self.returned = None;
                assert(self@.frames =~= before.advance(pc, values_model(acc@)).push(
                    FrameModel { node: child, pc: 0, acc: Seq::empty(), mode: child_mode },
                ));
                Action::Continue
            },
            Outcome::BindPush { def, value, child, mode: child_mode, pc, acc } => {
                self.frames.push(Frame { node, pc, acc, mode });
                let empty: Vec<StorkValue> = Vec::new();
                assert(values_model(empty@) =~= Seq::<ValueModel>::empty());
                self.frames.push(Frame { node: child, pc: 0, acc: empty, mode: child_mode });
                self.awaiting = Awaiting::Nothing;
                self.returned = None;
                assert(self@.frames =~= before.advance(pc, values_model(acc@)).push(
                    FrameModel { node: child, pc: 0, acc: Seq::empty(), mode: child_mode },
                ));
                self.bind(def, value);
                Action::Continue
            },
            Outcome::Host { action, awaiting, pc, acc } => {
                self.frames.push(Frame { node, pc, acc, mode });
                self.awaiting = awaiting;
                self.returned = None;
                assert(self@.frames =~= before.advance(pc, values_model(acc@)));
                action
            },
            Outcome::Return(v) => self.pop(mode, v, Ghost(before)),
            Outcome::BindReturn { def, value } => {
                self.bind(def, value);
                self.pop(
                    mode,
                    StorkValue::Unit,
                    Ghost(
                        MachineModel {
                            variables: before.variables.insert(def, value@),
                            ..before
                        },
                    ),
                )
            },
            Outcome::ApplyReturn { def, path, value } => {
                match self.variables.take(def) {
                    Some(old_value) => {
                        let mut current = old_value;
                        let ok = current.apply(&path, value);
                        self.variables.set(def, current);
                        if ok {
                            assert(self@.variables =~= before.variables.insert(def, current@));
                            self.pop(
                                mode,
                                StorkValue::Unit,
                                Ghost(
                                    MachineModel {
                                        variables: before.variables.insert(def, current@),
                                        ..before
                                    },
                                ),
                            )
                        } else {
                            assert(self@.variables =~= before.variables);
                            self.halt();
                            Action::Failed(EvalError::NoSuchField)
                        }
                    },
                    None => {
                        assert(self@.variables =~= before.variables);
                        self.halt();
                        Action::Failed(EvalError::UnsetVariable)
                    },
                }
            },
            Outcome::Fail(e) => {
                self.halt();
                Action::Failed(e)
            },
        }
    }
}

} // verus!

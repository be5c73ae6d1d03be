//! The evaluator, as a mathematical function: one step of the abstract
//! machine that runs a system.
//!
//! The machine walks the nodes of a system. Whatever needs the store or a
//! builtin function it asks of the host, as an action, and goes on when it
//! is given the outcome, as an event. Between two actions it moves by
//! itself, one node at a time.
//!
//! For each node that is being evaluated the machine keeps a frame: the
//! node, how far its evaluation has come, and the values gathered for it.

use crate::effects::Names;
use crate::hir::{Expr, GlobalIdx, Identifier, NodeIdx, Node, Operator};
use crate::module_index::World;
use crate::names::field_ids;
use crate::report::ModuleID;
use crate::stork_value::ValueModel;
use vstd::prelude::*;

verus! {

/// Why a run came to an end without a value. Each of these is a fault of
/// the compiler or of the host, never of the program that is run.
#[derive(Debug, Clone, Copy, PartialEq, Eq, Structural)]
pub enum EvalError {
    /// A name that was not resolved was reached.
    UnresolvedName,
    /// A variable was read before it was bound.
    UnsetVariable,
    /// What is called is no function.
    NotAFunction,
    /// What is taken as an entity is none.
    NotAnEntity,
    /// What is taken as a condition is no boolean.
    NotABool,
    /// A member access on a value without the member.
    NoSuchField,
    /// The host has no value where one is read.
    MissingValue,
    /// The target of an assignment, a `let` or a `del` is none.
    BadTarget,
    /// The member of a member access is no plain name.
    BadMember,
    /// A poison node was reached.
    Poison,
    /// A node was reached that cannot be evaluated, or is none.
    BadNode,
    /// The host answered with another kind of event than was asked for.
    UnexpectedEvent,
    /// The machine was stepped after it had come to an end.
    NotRunning,
}

/// What the value of a node is wanted for: as it is, or as a condition. A
/// condition that is an access to the store asks only whether the
/// component or resource is there.
#[derive(Debug, Clone, Copy, PartialEq, Eq, Structural)]
pub enum Mode {
    Value,
    Truthy,
}

/// What the machine waits for from the host.
#[derive(Debug, Clone, Copy, PartialEq, Eq, Structural)]
pub enum Awaiting {
    /// Nothing: the machine moves by itself.
    Nothing,
    /// A value.
    Value,
    /// The entities of a query.
    Entities,
    /// That a change of the store was made.
    Done,
}

/// Mathematical model of a frame.
pub struct FrameModel {
    pub node: NodeIdx,
    pub pc: usize,
    pub acc: Seq<ValueModel>,
    pub mode: Mode,
}

/// Mathematical model of what the machine asks of the host.
pub enum ActionModel {
    /// Nothing: step again.
    Continue,
    /// The value of the number literal `0`.
    Number(Seq<char>),
    Call { function: GlobalIdx, args: Seq<ValueModel> },
    /// The entities that the query matches.
    Entities { query: GlobalIdx },
    GetComponent { entity: u64, component: GlobalIdx },
    HasComponent { entity: u64, component: GlobalIdx },
    AssignComponent { entity: u64, component: GlobalIdx, path: Seq<Seq<char>>, value: ValueModel },
    InsertComponent { entity: u64, component: GlobalIdx, value: ValueModel },
    RemoveComponent { entity: u64, component: GlobalIdx },
    GetResource { resource: GlobalIdx },
    HasResource { resource: GlobalIdx },
    AssignResource { resource: GlobalIdx, path: Seq<Seq<char>>, value: ValueModel },
    InsertResource { resource: GlobalIdx, value: ValueModel },
    RemoveResource { resource: GlobalIdx },
    /// The run is over, with this value.
    Finished(ValueModel),
    /// The run is over, without a value.
    Failed(EvalError),
}

/// Mathematical model of what the host tells the machine.
pub enum EventModel {
    /// Go on: nothing was asked, or a change of the store was made.
    Resume,
    Value(ValueModel),
    Entities(Seq<u64>),
    /// There is no value where one was asked for.
    Missing,
}

/// What becomes of the frame on top.
pub enum OutcomeModel {
    /// It goes on at `pc` with the values `acc`, and the node `child` is
    /// evaluated for it.
    Push { child: NodeIdx, mode: Mode, pc: usize, acc: Seq<ValueModel> },
    /// The same, after the variable `def` is bound to `value`.
    BindPush {
        def: GlobalIdx,
        value: ValueModel,
        child: NodeIdx,
        mode: Mode,
        pc: usize,
        acc: Seq<ValueModel>,
    },
    /// It goes on at `pc` with the values `acc` once the host has done
    /// `action`.
    Host { action: ActionModel, awaiting: Awaiting, pc: usize, acc: Seq<ValueModel> },
    /// It is done, with this value.
    Return(ValueModel),
    /// It is done, with the unit value, after the variable `def` is bound
    /// to `value`.
    BindReturn { def: GlobalIdx, value: ValueModel },
    /// It is done, with the unit value, after the part at `path` of the
    /// variable `def` is replaced by `value`.
    ApplyReturn { def: GlobalIdx, path: Seq<Seq<char>>, value: ValueModel },
    /// The run fails.
    Fail(EvalError),
}

/// Mathematical model of the machine.
pub struct MachineModel {
    pub module: ModuleID,
    pub frames: Seq<FrameModel>,
    pub variables: Map<GlobalIdx, ValueModel>,
    /// The value that the frame on top was last given.
    pub returned: Option<ValueModel>,
    pub awaiting: Awaiting,
}

/// The entities as values.
pub open spec fn entity_values(es: Seq<u64>) -> Seq<ValueModel> {
    Seq::new(es.len(), |i: int| ValueModel::Entity(es[i]))
}

/// The record of the fields `fields` with the values `values`.
pub open spec fn record_of(fields: Seq<(String, NodeIdx)>, values: Seq<ValueModel>) -> ValueModel {
    ValueModel::Struct(Seq::new(fields.len(), |i: int| (fields[i].0@, values[i])))
}

/// The definition that the node `i` of module `m` stands for.
pub open spec fn def_of(names: Names, m: ModuleID, i: NodeIdx) -> Option<GlobalIdx> {
    if names.contains_key(GlobalIdx(m, i)) {
        Some(names[GlobalIdx(m, i)].0)
    } else {
        None
    }
}

/// The frame is done with the value that it was given.
pub open spec fn give_back(input: Option<ValueModel>) -> OutcomeModel {
    match input {
        Some(v) => OutcomeModel::Return(v),
        None => OutcomeModel::Fail(EvalError::UnexpectedEvent),
    }
}

impl World {
    /// The node `i` of module `m`, if there is one.
    pub open spec fn node_at(self, m: ModuleID, i: NodeIdx) -> Option<Node> {
        if self.has(GlobalIdx(m, i)) {
            Some(self.node(GlobalIdx(m, i)))
        } else {
            None
        }
    }

    /// Whether `f` is the address of a builtin function.
    pub open spec fn is_builtin(self, f: GlobalIdx) -> bool {
        self.has(f) && self.node(f) is BuiltinFunction
    }

    /// Whether `f` is the address of the builtin function of the operator
    /// `!`.
    pub open spec fn is_not_builtin(self, f: GlobalIdx) -> bool {
        self.has(f) && match self.node(f) {
            Node::BuiltinFunction { identifier, .. } => identifier@
                == crate::hir::IdentModel::Operator(Operator::Not),
            _ => false,
        }
    }

    /// The name that the node `i` of module `m` is, if it is a plain name.
    pub open spec fn member_name(self, m: ModuleID, i: NodeIdx) -> Option<Seq<char>> {
        match self.node_at(m, i) {
            Some(Node::Expr(Expr::Identifier(Identifier::Name(name)))) => Some(name@),
            _ => None,
        }
    }

    /// The target of a chain of member accesses that ends in the node `i`:
    /// the node at its base, and the names of the members from the base
    /// out. None where a member is no plain name.
    pub open spec fn drill(self, m: ModuleID, i: NodeIdx) -> Option<(NodeIdx, Seq<Seq<char>>)>
        decreases i,
    {
        match self.node_at(m, i) {
            Some(Node::Expr(Expr::MemberAccess { base, member })) => match self.member_name(
                m,
                member,
            ) {
                Some(name) => if base < i {
                    match self.drill(m, base) {
                        Some((target, path)) => Some((target, path.push(name))),
                        None => None,
                    }
                } else {
                    None
                },
                None => None,
            },
            _ => Some((i, Seq::empty())),
        }
    }

    /// What becomes of a frame for the node `i` of module `m`, which has
    /// come to `pc` with the values `acc`, when it is given `input`: the
    /// value of the node evaluated for it last, or the answer of the host.
    pub open spec fn plan(
        self,
        names: Names,
        variables: Map<GlobalIdx, ValueModel>,
        m: ModuleID,
        i: NodeIdx,
        pc: usize,
        acc: Seq<ValueModel>,
        mode: Mode,
        input: Option<ValueModel>,
    ) -> OutcomeModel {
        if pc == usize::MAX {
            OutcomeModel::Fail(EvalError::BadNode)
        } else {
        match self.node_at(m, i) {
            Some(Node::System(system)) => if pc == 0 {
                OutcomeModel::Push { child: system.block, mode: Mode::Value, pc: 1, acc }
            } else {
                give_back(input)
            },
            Some(Node::Expr(e)) => self.plan_expr(names, variables, m, i, e, pc, acc, mode, input),
            _ => OutcomeModel::Fail(EvalError::BadNode),
        }
        }
    }

    /// An access to the component `component` of the entity `input`, for
    /// its value or for whether it is there.
    pub open spec fn access_component(
        self,
        names: Names,
        m: ModuleID,
        component: NodeIdx,
        mode: Mode,
        input: Option<ValueModel>,
        pc: usize,
        acc: Seq<ValueModel>,
    ) -> OutcomeModel {
        match input {
            Some(ValueModel::Entity(entity)) => match def_of(names, m, component) {
                Some(component) => OutcomeModel::Host {
                    action: if mode == Mode::Truthy {
                        ActionModel::HasComponent { entity, component }
                    } else {
                        ActionModel::GetComponent { entity, component }
                    },
                    awaiting: Awaiting::Value,
                    pc,
                    acc,
                },
                None => OutcomeModel::Fail(EvalError::UnresolvedName),
            },
            Some(_) => OutcomeModel::Fail(EvalError::NotAnEntity),
            None => OutcomeModel::Fail(EvalError::UnexpectedEvent),
        }
    }

    /// What becomes of a frame for the expression `e`.
    ///
    /// - A block evaluates its statements in order and has the value of
    ///   the last, the unit value if it is empty.
    /// - A name has a copy of the value of its variable; the name of a
    ///   builtin function is that function.
    /// - A call evaluates the function and then the arguments in order,
    ///   and has the host call the function; the arguments of the operator
    ///   `!` are conditions. A function that is no builtin is not called:
    ///   the call is that function.
    /// - A query asks the host for its entities, and evaluates its body
    ///   once for each, the variable of the query bound to the entity.
    /// - An assignment evaluates the value first, then replaces the part
    ///   of the target that the members name; a `let` binds or inserts; a
    ///   `del` removes.
    /// - `if`, `while`, assignment, `let`, `del` and a query have the unit
    ///   value.
    pub open spec fn plan_expr(
        self,
        names: Names,
        variables: Map<GlobalIdx, ValueModel>,
        m: ModuleID,
        i: NodeIdx,
        e: Expr,
        pc: usize,
        acc: Seq<ValueModel>,
        mode: Mode,
        input: Option<ValueModel>,
    ) -> OutcomeModel {
        let g = GlobalIdx(m, i);
        let unit = OutcomeModel::Return(ValueModel::Unit);
        let unexpected = OutcomeModel::Fail(EvalError::UnexpectedEvent);
        match e {
            Expr::Block(ids) => if pc < ids@.len() {
                OutcomeModel::Push { child: ids@[pc as int], mode: Mode::Value, pc: (pc + 1) as usize, acc }
            } else if pc == 0 {
                unit
            } else {
                give_back(input)
            },
            Expr::Identifier(_) => match def_of(names, m, i) {
                None => OutcomeModel::Fail(EvalError::UnresolvedName),
                Some(def) => if self.is_builtin(def) {
                    OutcomeModel::Return(ValueModel::Function(def))
                } else if variables.contains_key(def) {
                    OutcomeModel::Return(variables[def])
                } else {
                    OutcomeModel::Fail(EvalError::UnsetVariable)
                },
            },
            Expr::Number(text) => if pc == 0 {
                OutcomeModel::Host {
                    action: ActionModel::Number(text@),
                    awaiting: Awaiting::Value,
                    pc: 1,
                    acc,
                }
            } else {
                give_back(input)
            },
            Expr::FunctionCall { function, args } => if pc == 0 {
                OutcomeModel::Push { child: function, mode: Mode::Value, pc: 1, acc }
            } else if pc > args@.len() + 1 {
                give_back(input)
            } else {
                match input {
                    None => unexpected,
                    Some(v) => {
                        let acc = acc.push(v);
                        match acc[0] {
                            ValueModel::Function(f) => if !self.is_builtin(f) {
                                OutcomeModel::Return(ValueModel::Function(f))
                            } else if pc - 1 < args@.len() {
                                OutcomeModel::Push {
                                    child: args@[pc - 1],
                                    mode: if self.is_not_builtin(f) {
                                        Mode::Truthy
                                    } else {
                                        Mode::Value
                                    },
                                    pc: (pc + 1) as usize,
                                    acc,
                                }
                            } else {
                                OutcomeModel::Host {
                                    action: ActionModel::Call { function: f, args: acc.skip(1) },
                                    awaiting: Awaiting::Value,
                                    pc: (pc + 1) as usize,
                                    acc,
                                }
                            },
                            _ => OutcomeModel::Fail(EvalError::NotAFunction),
                        }
                    },
                }
            },
            Expr::Query { block, .. } => if pc == 0 {
                OutcomeModel::Host {
                    action: ActionModel::Entities { query: g },
                    awaiting: Awaiting::Entities,
                    pc: 1,
                    acc,
                }
            } else if pc - 1 < acc.len() {
                OutcomeModel::BindPush {
                    def: g,
                    value: acc[pc - 1],
                    child: block,
                    mode: Mode::Value,
                    pc: (pc + 1) as usize,
                    acc,
                }
            } else {
                unit
            },
            Expr::Poison => OutcomeModel::Fail(EvalError::Poison),
            Expr::ComponentAccess { entity, component } => if pc == 0 {
                OutcomeModel::Push { child: entity, mode: Mode::Value, pc: 1, acc }
            } else if pc == 1 {
                self.access_component(names, m, component, mode, input, 2, acc)
            } else {
                give_back(input)
            },
            Expr::ResourceAccess { resource } => if pc == 0 {
                match def_of(names, m, resource) {
                    Some(resource) => OutcomeModel::Host {
                        action: if mode == Mode::Truthy {
                            ActionModel::HasResource { resource }
                        } else {
                            ActionModel::GetResource { resource }
                        },
                        awaiting: Awaiting::Value,
                        pc: 1,
                        acc,
                    },
                    None => OutcomeModel::Fail(EvalError::UnresolvedName),
                }
            } else {
                give_back(input)
            },
            Expr::MemberAccess { base, member } => if pc == 0 {
                OutcomeModel::Push { child: base, mode: Mode::Value, pc: 1, acc }
            } else {
                match input {
                    None => unexpected,
                    Some(v) => match self.member_name(m, member) {
                        None => OutcomeModel::Fail(EvalError::BadMember),
                        Some(name) => match v.field(name) {
                            Some(v) => OutcomeModel::Return(v),
                            None => OutcomeModel::Fail(EvalError::NoSuchField),
                        },
                    },
                }
            },
            Expr::Assign { lvalue, expr } => if pc == 0 {
                OutcomeModel::Push { child: expr, mode: Mode::Value, pc: 1, acc }
            } else if pc >= 3 {
                unit
            } else {
                match (input, self.drill(m, lvalue)) {
                    (None, _) => unexpected,
                    (_, None) => OutcomeModel::Fail(EvalError::BadMember),
                    (Some(v), Some((target, path))) => match self.node_at(m, target) {
                        Some(Node::Expr(Expr::Identifier(_))) => if pc == 1 {
                            match def_of(names, m, target) {
                                Some(def) => OutcomeModel::ApplyReturn { def, path, value: v },
                                None => OutcomeModel::Fail(EvalError::UnresolvedName),
                            }
                        } else {
                            unexpected
                        },
                        Some(Node::Expr(Expr::ComponentAccess { entity, component })) => if pc
                            == 1 {
                            OutcomeModel::Push {
                                child: entity,
                                mode: Mode::Value,
                                pc: 2,
                                acc: seq![v],
                            }
                        } else if acc.len() != 1 {
                            unexpected
                        } else {
                            match (v, def_of(names, m, component)) {
                                (ValueModel::Entity(entity), Some(component)) => OutcomeModel::Host {
                                    action: ActionModel::AssignComponent {
                                        entity,
                                        component,
                                        path,
                                        value: acc[0],
                                    },
                                    awaiting: Awaiting::Done,
                                    pc: 3,
                                    acc,
                                },
                                (ValueModel::Entity(_), None) => OutcomeModel::Fail(
                                    EvalError::UnresolvedName,
                                ),
                                _ => OutcomeModel::Fail(EvalError::NotAnEntity),
                            }
                        },
                        Some(Node::Expr(Expr::ResourceAccess { resource })) => if pc == 1 {
                            match def_of(names, m, resource) {
                                Some(resource) => OutcomeModel::Host {
                                    action: ActionModel::AssignResource { resource, path, value: v },
                                    awaiting: Awaiting::Done,
                                    pc: 3,
                                    acc,
                                },
                                None => OutcomeModel::Fail(EvalError::UnresolvedName),
                            }
                        } else {
                            unexpected
                        },
                        _ => OutcomeModel::Fail(EvalError::BadTarget),
                    },
                }
            },
            Expr::Let { lvalue, expr } => if pc >= 3 {
                unit
            } else {
                match self.node_at(m, lvalue) {
                    Some(Node::Expr(Expr::Identifier(_))) => if pc == 0 {
                        OutcomeModel::Push { child: expr, mode: Mode::Value, pc: 1, acc }
                    } else {
                        match input {
                            Some(v) => OutcomeModel::BindReturn { def: GlobalIdx(m, lvalue), value: v },
                            None => unexpected,
                        }
                    },
                    Some(Node::Expr(Expr::ComponentAccess { entity, component })) => if pc == 0 {
                        OutcomeModel::Push { child: entity, mode: Mode::Value, pc: 1, acc }
                    } else if pc == 1 {
                        match input {
                            Some(ValueModel::Entity(e)) => OutcomeModel::Push {
                                child: expr,
                                mode: Mode::Value,
                                pc: 2,
                                acc: seq![ValueModel::Entity(e)],
                            },
                            Some(_) => OutcomeModel::Fail(EvalError::NotAnEntity),
                            None => unexpected,
                        }
                    } else {
                        match (input, def_of(names, m, component)) {
                            (None, _) => unexpected,
                            (_, None) => OutcomeModel::Fail(EvalError::UnresolvedName),
                            (Some(v), Some(component)) => if acc.len() == 1 && acc[0] is Entity {
                                OutcomeModel::Host {
                                    action: ActionModel::InsertComponent {
                                        entity: acc[0]->Entity_0,
                                        component,
                                        value: v,
                                    },
                                    awaiting: Awaiting::Done,
                                    pc: 3,
                                    acc,
                                }
                            } else {
                                unexpected
                            },
                        }
                    },
                    Some(Node::Expr(Expr::ResourceAccess { resource })) => if pc == 0 {
                        OutcomeModel::Push { child: expr, mode: Mode::Value, pc: 1, acc }
                    } else {
                        match (input, def_of(names, m, resource)) {
                            (None, _) => unexpected,
                            (_, None) => OutcomeModel::Fail(EvalError::UnresolvedName),
                            (Some(v), Some(resource)) => OutcomeModel::Host {
                                action: ActionModel::InsertResource { resource, value: v },
                                awaiting: Awaiting::Done,
                                pc: 3,
                                acc,
                            },
                        }
                    },
                    _ => OutcomeModel::Fail(EvalError::BadTarget),
                }
            },
            Expr::Del { expr } => if pc >= 2 {
                unit
            } else {
                match self.node_at(m, expr) {
                    Some(Node::Expr(Expr::ComponentAccess { entity, component })) => if pc == 0 {
                        OutcomeModel::Push { child: entity, mode: Mode::Value, pc: 1, acc }
                    } else {
                        match (input, def_of(names, m, component)) {
                            (None, _) => unexpected,
                            (Some(ValueModel::Entity(entity)), Some(component)) => OutcomeModel::Host {
                                action: ActionModel::RemoveComponent { entity, component },
                                awaiting: Awaiting::Done,
                                pc: 2,
                                acc,
                            },
                            (Some(ValueModel::Entity(_)), None) => OutcomeModel::Fail(
                                EvalError::UnresolvedName,
                            ),
                            _ => OutcomeModel::Fail(EvalError::NotAnEntity),
                        }
                    },
                    Some(Node::Expr(Expr::ResourceAccess { resource })) => match def_of(
                        names,
                        m,
                        resource,
                    ) {
                        Some(resource) => OutcomeModel::Host {
                            action: ActionModel::RemoveResource { resource },
                            awaiting: Awaiting::Done,
                            pc: 2,
                            acc,
                        },
                        None => OutcomeModel::Fail(EvalError::UnresolvedName),
                    },
                    _ => OutcomeModel::Fail(EvalError::BadTarget),
                }
            },
            Expr::If { cond, expr, otherwise } => if pc == 0 {
                OutcomeModel::Push { child: cond, mode: Mode::Truthy, pc: 1, acc }
            } else if pc == 1 {
                match input {
                    Some(ValueModel::Bool(true)) => OutcomeModel::Push {
                        child: expr,
                        mode: Mode::Value,
                        pc: 2,
                        acc,
                    },
                    Some(ValueModel::Bool(false)) => match otherwise {
                        Some(otherwise) => OutcomeModel::Push {
                            child: otherwise,
                            mode: Mode::Value,
                            pc: 2,
                            acc,
                        },
                        None => unit,
                    },
                    Some(_) => OutcomeModel::Fail(EvalError::NotABool),
                    None => unexpected,
                }
            } else {
                unit
            },
            Expr::While { cond, expr } => if pc == 1 {
                match input {
                    Some(ValueModel::Bool(true)) => OutcomeModel::Push {
                        child: expr,
                        mode: Mode::Value,
                        pc: 0,
                        acc,
                    },
                    Some(ValueModel::Bool(false)) => unit,
                    Some(_) => OutcomeModel::Fail(EvalError::NotABool),
                    None => unexpected,
                }
            } else {
                OutcomeModel::Push { child: cond, mode: Mode::Truthy, pc: 1, acc }
            },
            Expr::Struct { fields, .. } => {
                let acc = if pc == 0 {
                    acc
                } else {
                    match input {
                        Some(v) => acc.push(v),
                        None => acc,
                    }
                };
                if pc > 0 && input.is_none() {
                    unexpected
                } else if pc < fields@.len() {
                    OutcomeModel::Push {
                        child: fields@[pc as int].1,
                        mode: Mode::Value,
                        pc: (pc + 1) as usize,
                        acc,
                    }
                } else if acc.len() == fields@.len() {
                    OutcomeModel::Return(record_of(fields@, acc))
                } else {
                    unexpected
                }
            },
        }
    }
}

impl MachineModel {
    /// The machine after it has come to an end.
    pub open spec fn halted(self) -> MachineModel {
        MachineModel { frames: Seq::empty(), returned: None, awaiting: Awaiting::Nothing, ..self }
    }

    /// The value `v` is handed to what waits for the frame on top, which
    /// is done: to the frame below, or, where there is none, to the host,
    /// and the run is over. A condition must be a boolean.
    pub open spec fn pop(self, v: ValueModel) -> (MachineModel, ActionModel) {
        if self.frames.last().mode == Mode::Truthy && !(v is Bool) {
            (self.halted(), ActionModel::Failed(EvalError::NotABool))
        } else if self.frames.len() == 1 {
            (self.halted(), ActionModel::Finished(v))
        } else {
            (
                MachineModel {
                    frames: self.frames.drop_last(),
                    returned: Some(v),
                    awaiting: Awaiting::Nothing,
                    ..self
                },
                ActionModel::Continue,
            )
        }
    }

    /// The frame on top goes on at `pc` with the values `acc`.
    pub open spec fn advance(self, pc: usize, acc: Seq<ValueModel>) -> Seq<FrameModel> {
        self.frames.update(
            self.frames.len() - 1,
            FrameModel { pc, acc, ..self.frames.last() },
        )
    }

    /// The machine after the frame on top has met `outcome`.
    pub open spec fn apply(self, outcome: OutcomeModel) -> (MachineModel, ActionModel) {
        match outcome {
            OutcomeModel::Push { child, mode, pc, acc } => (
                MachineModel {
                    frames: self.advance(pc, acc).push(
                        FrameModel { node: child, pc: 0, acc: Seq::empty(), mode },
                    ),
                    returned: None,
                    awaiting: Awaiting::Nothing,
                    ..self
                },
                ActionModel::Continue,
            ),
            OutcomeModel::BindPush { def, value, child, mode, pc, acc } => (
                MachineModel {
                    frames: self.advance(pc, acc).push(
                        FrameModel { node: child, pc: 0, acc: Seq::empty(), mode },
                    ),
                    variables: self.variables.insert(def, value),
                    returned: None,
                    awaiting: Awaiting::Nothing,
                    ..self
                },
                ActionModel::Continue,
            ),
            OutcomeModel::Host { action, awaiting, pc, acc } => (
                MachineModel { frames: self.advance(pc, acc), returned: None, awaiting, ..self },
                action,
            ),
            OutcomeModel::Return(v) => self.pop(v),
            OutcomeModel::BindReturn { def, value } => MachineModel {
                variables: self.variables.insert(def, value),
                ..self
            }.pop(ValueModel::Unit),
            OutcomeModel::ApplyReturn { def, path, value } => if self.variables.contains_key(def) {
                match self.variables[def].with(path, value) {
                    Some(v) => MachineModel {
                        variables: self.variables.insert(def, v),
                        ..self
                    }.pop(ValueModel::Unit),
                    None => (self.halted(), ActionModel::Failed(EvalError::NoSuchField)),
                }
            } else {
                (self.halted(), ActionModel::Failed(EvalError::UnsetVariable))
            },
            OutcomeModel::Fail(e) => (self.halted(), ActionModel::Failed(e)),
        }
    }

    /// What the frame on top is given, when the host tells `event`: the
    /// event must be of the kind that the machine waits for.
    pub open spec fn receive(self, event: EventModel) -> Option<(Option<ValueModel>, Seq<ValueModel>)> {
        let acc = self.frames.last().acc;
        match (self.awaiting, event) {
            (Awaiting::Nothing, EventModel::Resume) => Some((self.returned, acc)),
            (Awaiting::Done, EventModel::Resume) => Some((None, acc)),
            (Awaiting::Value, EventModel::Value(v)) => Some((Some(v), acc)),
            (Awaiting::Entities, EventModel::Entities(es)) => Some((None, entity_values(es))),
            _ => None,
        }
    }

    /// One step of the machine over the modules `world` with the names
    /// `names`, when the host tells `event`: the machine after the step,
    /// and what it asks of the host.
    pub open spec fn step(self, world: World, names: Names, event: EventModel) -> (
        MachineModel,
        ActionModel,
    ) {
        if self.frames.len() == 0 {
            (self.halted(), ActionModel::Failed(EvalError::NotRunning))
        } else if self.awaiting == Awaiting::Value && event is Missing {
            (self.halted(), ActionModel::Failed(EvalError::MissingValue))
        } else {
            match self.receive(event) {
                None => (self.halted(), ActionModel::Failed(EvalError::UnexpectedEvent)),
                Some((input, acc)) => {
                    let top = self.frames.last();
                    self.apply(
                        world.plan(
                            names,
                            self.variables,
                            self.module,
                            top.node,
                            top.pc,
                            acc,
                            top.mode,
                            input,
                        ),
                    )
                },
            }
        }
    }
}


/// A condition that is an access to a resource only asks whether the
/// resource is there: the machine never reads a resource for a condition,
/// so a resource that is not there is no error.
pub proof fn lemma_resource_condition_asks_presence(
    world: World,
    names: Names,
    variables: Map<GlobalIdx, ValueModel>,
    m: ModuleID,
    i: NodeIdx,
    acc: Seq<ValueModel>,
)
    requires
        world.node_at(m, i) matches Some(Node::Expr(Expr::ResourceAccess { resource }))
            && names.contains_key(GlobalIdx(m, resource)),
    ensures
        world.plan(names, variables, m, i, 0, acc, Mode::Truthy, None) matches OutcomeModel::Host {
            action,
            awaiting,
            ..
        } && action is HasResource && awaiting == Awaiting::Value,
{
}

/// The same for a component: a condition that is an access to a component
/// of an entity only asks whether the entity has it.
pub proof fn lemma_component_condition_asks_presence(
    world: World,
    names: Names,
    variables: Map<GlobalIdx, ValueModel>,
    m: ModuleID,
    i: NodeIdx,
    acc: Seq<ValueModel>,
    entity: u64,
)
    requires
        world.node_at(m, i) matches Some(Node::Expr(Expr::ComponentAccess { component, .. }))
            && names.contains_key(GlobalIdx(m, component)),
    ensures
        world.plan(
            names,
            variables,
            m,
            i,
            1,
            acc,
            Mode::Truthy,
            Some(ValueModel::Entity(entity)),
        ) matches OutcomeModel::Host { action, awaiting, .. } && action is HasComponent
            && awaiting == Awaiting::Value,
{
}

/// An `if` whose condition does not hold and that has no `else` is done at
/// once, with the unit value: its body is not evaluated, and nothing
/// fails.
pub proof fn lemma_if_false_is_skipped(
    world: World,
    names: Names,
    variables: Map<GlobalIdx, ValueModel>,
    m: ModuleID,
    i: NodeIdx,
    acc: Seq<ValueModel>,
    mode: Mode,
)
    requires
        world.node_at(m, i) matches Some(Node::Expr(Expr::If { otherwise, .. }))
            && otherwise.is_none(),
    ensures
        world.plan(names, variables, m, i, 1, acc, mode, Some(ValueModel::Bool(false)))
            == OutcomeModel::Return(ValueModel::Unit),
{
}

/// A machine that has come to an end stays there: every further step
/// fails, and changes nothing.
pub proof fn lemma_halted_stays(machine: MachineModel, world: World, names: Names, event: EventModel)
    requires
        machine.frames.len() == 0,
    ensures
        machine.step(world, names, event) == (
            machine.halted(),
            ActionModel::Failed(EvalError::NotRunning),
        ),
{
}

} // verus!

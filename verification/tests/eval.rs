use std::collections::HashMap;

use stork_script::hir::{GlobalIdx, Identifier, Node, Operator};
use stork_script::machine::EvalError;
use stork_script::resolved_effect::{store_accesses, ResolvedEffects, StoreAccess};
use stork_script::resolved_type::{InnerResolvedType, ResolvedType};
use stork_script::stork_std;
use stork_script::stork_value::StorkValue;
use stork_script::tree_walker::{Action, Event};
use stork_script::vm_module_index::{RunError, VMModuleIndex};

/// A store in memory, with the builtin functions on numbers and booleans.
#[derive(Default)]
struct Store {
    entities: Vec<u64>,
    components: HashMap<(u64, GlobalIdx), StorkValue>,
    resources: HashMap<GlobalIdx, StorkValue>,
    printed: Vec<f32>,
}

fn number(v: f32) -> StorkValue {
    StorkValue::Number(v.to_bits())
}

fn as_number(v: &StorkValue) -> f32 {
    match v {
        StorkValue::Number(bits) => f32::from_bits(*bits),
        other => panic!("not a number: {:?}", other),
    }
}

fn as_bool(v: &StorkValue) -> bool {
    match v {
        StorkValue::Bool(b) => *b,
        other => panic!("not a boolean: {:?}", other),
    }
}

fn record(fields: Vec<(&str, StorkValue)>) -> StorkValue {
    StorkValue::Struct(
        fields
            .into_iter()
            .map(|(name, value)| (name.to_string(), value))
            .collect(),
    )
}

fn record_type(fields: Vec<(&str, InnerResolvedType)>) -> InnerResolvedType {
    InnerResolvedType::Struct {
        fields: fields
            .into_iter()
            .map(|(name, ty)| (name.to_string(), ty))
            .collect(),
    }
}

impl Store {
    fn spawn(&mut self) -> u64 {
        let id = self.entities.len() as u64;
        self.entities.push(id);
        id
    }

    fn call(&mut self, index: &VMModuleIndex, function: GlobalIdx, args: Vec<StorkValue>) -> StorkValue {
        let identifier = match index.index.modules.get_node(function) {
            Node::BuiltinFunction { identifier, .. } => identifier,
            other => panic!("not a builtin function: {:?}", other),
        };
        let n = |i: usize| as_number(&args[i]);
        let b = |i: usize| as_bool(&args[i]);
        match identifier {
            Identifier::Operator(Operator::Add) => number(n(0) + n(1)),
            Identifier::Operator(Operator::Sub) => number(n(0) - n(1)),
            Identifier::Operator(Operator::Mul) => number(n(0) * n(1)),
            Identifier::Operator(Operator::Div) => number(n(0) / n(1)),
            Identifier::Operator(Operator::Neg) => number(-n(0)),
            Identifier::Operator(Operator::Eq) => StorkValue::Bool(n(0) == n(1)),
            Identifier::Operator(Operator::Less) => StorkValue::Bool(n(0) < n(1)),
            Identifier::Operator(Operator::LessEq) => StorkValue::Bool(n(0) <= n(1)),
            Identifier::Operator(Operator::Greater) => StorkValue::Bool(n(0) > n(1)),
            Identifier::Operator(Operator::GreaterEq) => StorkValue::Bool(n(0) >= n(1)),
            Identifier::Operator(Operator::Not) => StorkValue::Bool(!b(0)),
            Identifier::Operator(Operator::Or) => StorkValue::Bool(b(0) || b(1)),
            Identifier::Operator(Operator::And) => StorkValue::Bool(b(0) && b(1)),
            Identifier::Name(name) if name == "print" => {
                self.printed.push(n(0));
                StorkValue::Unit
            }
            other => panic!("unknown builtin: {:?}", other),
        }
    }

    /// The entities that have every component that the query reads or
    /// writes.
    fn matching(&self, index: &VMModuleIndex, query: GlobalIdx) -> Vec<u64> {
        let mut needed = Vec::new();
        if let Some(effects) = index.index.cache.effects.get_ref(query) {
            for access in store_accesses(effects) {
                match access {
                    StoreAccess::ReadComponent(c) | StoreAccess::WriteComponent(c) => needed.push(c),
                    _ => {}
                }
            }
        }
        self.entities
            .iter()
            .copied()
            .filter(|e| needed.iter().all(|c| self.components.contains_key(&(*e, *c))))
            .collect()
    }

    fn run(&mut self, index: &VMModuleIndex, system: GlobalIdx) -> Result<StorkValue, EvalError> {
        let mut vm = index.run_system(system).expect("the modules have errors");
        let mut event = Event::Resume;
        loop {
            let action = vm.step(&index.index.modules, &index.index.cache.names, event);
            event = match action {
                Action::Continue => Event::Resume,
                Action::Number(text) => Event::Value(number(text.parse().unwrap())),
                Action::Call { function, args } => Event::Value(self.call(index, function, args)),
                Action::Entities { query } => Event::Entities(self.matching(index, query)),
                Action::GetComponent { entity, component } => {
                    match self.components.get(&(entity, component)) {
                        Some(v) => Event::Value(v.clone()),
                        None => Event::Missing,
                    }
                }
                Action::HasComponent { entity, component } => Event::Value(StorkValue::Bool(
                    self.components.contains_key(&(entity, component)),
                )),
                Action::AssignComponent { entity, component, path, value } => {
                    let slot = self.components.get_mut(&(entity, component)).unwrap();
                    assert!(slot.apply(&path, value));
                    Event::Resume
                }
                Action::InsertComponent { entity, component, value } => {
                    self.components.insert((entity, component), value);
                    Event::Resume
                }
                Action::RemoveComponent { entity, component } => {
                    self.components.remove(&(entity, component));
                    Event::Resume
                }
                Action::GetResource { resource } => match self.resources.get(&resource) {
                    Some(v) => Event::Value(v.clone()),
                    None => Event::Missing,
                },
                Action::HasResource { resource } => {
                    Event::Value(StorkValue::Bool(self.resources.contains_key(&resource)))
                }
                Action::AssignResource { resource, path, value } => {
                    let slot = self.resources.get_mut(&resource).unwrap();
                    assert!(slot.apply(&path, value));
                    Event::Resume
                }
                Action::InsertResource { resource, value } => {
                    self.resources.insert(resource, value);
                    Event::Resume
                }
                Action::RemoveResource { resource } => {
                    self.resources.remove(&resource);
                    Event::Resume
                }
                Action::Finished(v) => return Ok(v),
                Action::Failed(e) => return Err(e),
            };
        }
    }
}

/// Compiles `source` as the module `main`, beside the builtins and the
/// types `host_types` of the host, which come from the store.
fn compile_with(source: &str, host_types: Vec<(&str, InnerResolvedType)>) -> VMModuleIndex {
    let mut vm = VMModuleIndex::new();
    vm.index.add_source("main".to_string(), source).unwrap();
    let mut std = stork_std::new_module();
    for (name, inner) in host_types {
        assert!(std.alloc_top_level(Node::BuiltinType {
            identifier: Identifier::Name(name.to_string()),
            ty: ResolvedType {
                inner,
                component_or_resource: true,
            },
            effects: ResolvedEffects::new(),
        }));
    }
    vm.index.add_module("std".to_string(), std);
    vm
}

fn compile(source: &str, host_types: Vec<(&str, InnerResolvedType)>) -> VMModuleIndex {
    let mut vm = compile_with(source, host_types);
    if vm.compile().is_err() {
        for m in vm.index.modules.all_ids() {
            println!("{:?}", vm.index.modules.get_ref(m).parser_errors);
            println!("{:?}", vm.index.cache.errors.get_ref(m));
        }
        panic!("There were errors during compilation");
    }
    vm
}

fn transform_type() -> InnerResolvedType {
    record_type(vec![(
        "translation",
        record_type(vec![
            ("x", InnerResolvedType::F32),
            ("y", InnerResolvedType::F32),
            ("z", InnerResolvedType::F32),
        ]),
    )])
}

fn transform(x: f32, y: f32, z: f32) -> StorkValue {
    record(vec![(
        "translation",
        record(vec![("x", number(x)), ("y", number(y)), ("z", number(z))]),
    )])
}

fn coordinates(v: &StorkValue) -> (f32, f32, f32) {
    let path = |name: &str| vec!["translation".to_string(), name.to_string()];
    (
        as_number(&v.subscript(&path("x")).unwrap()),
        as_number(&v.subscript(&path("y")).unwrap()),
        as_number(&v.subscript(&path("z")).unwrap()),
    )
}

#[test]
fn simple() {
    let vm = compile(
        "
    use std

    res Health: f32

    sys first_system {
        query entity {
            let v = 1;
            entity[Transform].translation.x = v;
        };
        query entity {
            entity[Transform].translation.y = entity[Transform].translation.x + 3;
        };

        [Difficulty].value = 10
    }
            
    sys second_system {
        let [Health] = 5;
        [Health] = 123;
        print([Health]);
        query entity {
            if [Health] == 123 {
                entity[Transform].translation.z = [Health];
            }
        }
    }
    
    ",
        vec![
            ("Transform", transform_type()),
            (
                "Difficulty",
                record_type(vec![("value", InnerResolvedType::F32)]),
            ),
        ],
    );
    let transform_id = vm.get_system_id("std", "Transform").unwrap();
    let difficulty_id = vm.get_system_id("std", "Difficulty").unwrap();

    let mut world = Store::default();
    world.spawn();
    world.spawn();
    for _ in 0..3 {
        let e = world.spawn();
        world
            .components
            .insert((e, transform_id), transform(0., 0., 0.));
    }
    world
        .resources
        .insert(difficulty_id, record(vec![("value", number(0.))]));

    let first_system = vm.get_system_id("main", "first_system").unwrap();
    let second_system = vm.get_system_id("main", "second_system").unwrap();

    world.run(&vm, first_system).unwrap();
    world.run(&vm, second_system).unwrap();

    let mut seen = 0;
    for e in &world.entities {
        if let Some(t) = world.components.get(&(*e, transform_id)) {
            assert_eq!(coordinates(t), (1., 4., 123.));
            seen += 1;
        }
    }
    assert_eq!(seen, 3);
    let difficulty = world.resources.get(&difficulty_id).unwrap();
    assert_eq!(
        as_number(&difficulty.subscript(&vec!["value".to_string()]).unwrap()),
        10.
    );
    assert_eq!(world.printed, vec![123.]);
}

#[test]
fn resource_is_inserted_then_assigned() {
    let vm = compile(
        "use std
         res Health: f32
         sys s { let [Health] = 5; [Health] = 123; }",
        vec![],
    );
    let health = vm.get_system_id("main", "Health").unwrap();
    let mut world = Store::default();
    assert!(world.resources.get(&health).is_none());
    let s = vm.get_system_id("main", "s").unwrap();
    let result = world.run(&vm, s).unwrap();
    assert!(matches!(result, StorkValue::Unit));
    assert_eq!(as_number(world.resources.get(&health).unwrap()), 123.0);
}

#[test]
fn two_queries_set_x_then_y() {
    let vm = compile(
        "use std
         sys s {
            query entity { entity[Transform].translation.x = 1; };
            query entity { entity[Transform].translation.y = entity[Transform].translation.x + 3; }
         }",
        vec![("Transform", transform_type())],
    );
    let transform_id = vm.get_system_id("std", "Transform").unwrap();
    let mut world = Store::default();
    let bare = world.spawn();
    let a = world.spawn();
    let b = world.spawn();
    world
        .components
        .insert((a, transform_id), transform(7., 8., 9.));
    world
        .components
        .insert((b, transform_id), transform(0., 0., 0.));
    let s = vm.get_system_id("main", "s").unwrap();
    world.run(&vm, s).unwrap();
    assert_eq!(
        coordinates(world.components.get(&(a, transform_id)).unwrap()),
        (1., 4., 9.)
    );
    assert_eq!(
        coordinates(world.components.get(&(b, transform_id)).unwrap()),
        (1., 4., 0.)
    );
    assert!(world.components.get(&(bare, transform_id)).is_none());
}

fn final_state(source: &str) -> (f32, Vec<f32>) {
    let vm = compile(source, vec![]);
    let r = vm.get_system_id("main", "R").unwrap();
    let mut world = Store::default();
    world.resources.insert(r, number(12.));
    let s = vm.get_system_id("main", "s").unwrap();
    world.run(&vm, s).unwrap();
    (as_number(world.resources.get(&r).unwrap()), world.printed)
}

#[test]
fn compound_assignment_is_assignment_of_the_operation() {
    for (op, expected) in [("+", 16.), ("-", 8.), ("*", 48.), ("/", 3.)] {
        let compound = final_state(&format!(
            "use std
             res R: f32
             sys s {{ let a = 12; a {op}= 4; print(a); [R] {op}= 4 }}"
        ));
        let plain = final_state(&format!(
            "use std
             res R: f32
             sys s {{ let a = 12; a = a {op} 4; print(a); [R] = [R] {op} 4 }}"
        ));
        assert_eq!(compound, plain);
        assert_eq!(compound, (expected, vec![expected]));
    }
}

#[test]
fn missing_resource_is_a_false_condition() {
    let vm = compile(
        "use std
         res Missing: f32
         res Flag: f32
         sys s { if [Missing] { [Flag] = 1 } }
         sys t { if [Missing] { [Flag] = 1 } else { [Flag] = 2 } }
         sys u { if ![Missing] { [Flag] = 3 } }",
        vec![],
    );
    let flag = vm.get_system_id("main", "Flag").unwrap();
    let missing = vm.get_system_id("main", "Missing").unwrap();
    let mut world = Store::default();
    world.resources.insert(flag, number(0.));

    let s = vm.get_system_id("main", "s").unwrap();
    assert!(matches!(world.run(&vm, s), Ok(StorkValue::Unit)));
    assert_eq!(as_number(world.resources.get(&flag).unwrap()), 0.);
    assert!(world.resources.get(&missing).is_none());

    let t = vm.get_system_id("main", "t").unwrap();
    world.run(&vm, t).unwrap();
    assert_eq!(as_number(world.resources.get(&flag).unwrap()), 2.);

    let u = vm.get_system_id("main", "u").unwrap();
    world.run(&vm, u).unwrap();
    assert_eq!(as_number(world.resources.get(&flag).unwrap()), 3.);
}

#[test]
fn present_component_is_a_true_condition() {
    let vm = compile(
        "use std
         comp Tag: f32
         res Count: f32
         sys s { query e { if e[Tag] { [Count] += 1 } } }",
        vec![],
    );
    let tag = vm.get_system_id("main", "Tag").unwrap();
    let count = vm.get_system_id("main", "Count").unwrap();
    let mut world = Store::default();
    world.resources.insert(count, number(0.));
    let a = world.spawn();
    world.spawn();
    let c = world.spawn();
    world.components.insert((a, tag), number(1.));
    world.components.insert((c, tag), number(1.));
    let s = vm.get_system_id("main", "s").unwrap();
    world.run(&vm, s).unwrap();
    // To test for a component is no access, so the query is over every
    // entity, and the condition holds for the two that have the tag.
    assert_eq!(as_number(world.resources.get(&count).unwrap()), 2.);
}

#[test]
fn reading_a_missing_resource_fails() {
    let vm = compile(
        "use std
         res Missing: f32
         sys s { print([Missing]) }",
        vec![],
    );
    let mut world = Store::default();
    let s = vm.get_system_id("main", "s").unwrap();
    assert!(matches!(world.run(&vm, s), Err(EvalError::MissingValue)));
}

#[test]
fn while_counts_down() {
    let vm = compile(
        "use std
         sys s { let a = 3; while a > 0 { print(a); a -= 1 } }",
        vec![],
    );
    let mut world = Store::default();
    let s = vm.get_system_id("main", "s").unwrap();
    assert!(matches!(world.run(&vm, s), Ok(StorkValue::Unit)));
    assert_eq!(world.printed, vec![3., 2., 1.]);
}

#[test]
fn block_has_the_value_of_its_last_statement() {
    let vm = compile(
        "use std
         sys s { print({ 1; 2; 3 } + -4 * 2) }",
        vec![],
    );
    let mut world = Store::default();
    let s = vm.get_system_id("main", "s").unwrap();
    world.run(&vm, s).unwrap();
    assert_eq!(world.printed, vec![-5.]);
}

#[test]
fn del_and_let_remove_and_insert() {
    let vm = compile(
        "use std
         comp C: f32
         res R: f32
         sys s {
            query e { del e[C] };
            del [R]
         }
         sys t {
            let [R] = 9
         }",
        vec![],
    );
    let c = vm.get_system_id("main", "C").unwrap();
    let r = vm.get_system_id("main", "R").unwrap();
    let mut world = Store::default();
    let e = world.spawn();
    world.components.insert((e, c), number(1.));
    world.resources.insert(r, number(1.));
    let s = vm.get_system_id("main", "s").unwrap();
    world.run(&vm, s).unwrap();
    assert!(world.resources.get(&r).is_none());
    let t = vm.get_system_id("main", "t").unwrap();
    world.run(&vm, t).unwrap();
    assert_eq!(as_number(world.resources.get(&r).unwrap()), 9.);
}

#[test]
fn struct_literal_keeps_the_order_of_its_fields() {
    let vm = compile(
        "use std
         sys s { let p = Point { y: 2, x: 1 }; let [Origin] = p; print(p.y) }",
        vec![
            (
                "Point",
                record_type(vec![("y", InnerResolvedType::F32), ("x", InnerResolvedType::F32)]),
            ),
            (
                "Origin",
                record_type(vec![("y", InnerResolvedType::F32), ("x", InnerResolvedType::F32)]),
            ),
        ],
    );
    let origin = vm.get_system_id("std", "Origin").unwrap();
    let mut world = Store::default();
    let s = vm.get_system_id("main", "s").unwrap();
    world.run(&vm, s).unwrap();
    match world.resources.get(&origin).unwrap() {
        StorkValue::Struct(fields) => {
            assert_eq!(fields.len(), 2);
            assert_eq!(fields[0].0, "y");
            assert_eq!(as_number(&fields[0].1), 2.);
            assert_eq!(fields[1].0, "x");
            assert_eq!(as_number(&fields[1].1), 1.);
        }
        other => panic!("not a record: {:?}", other),
    }
    assert_eq!(world.printed, vec![2.]);
}

#[test]
fn what_has_errors_is_not_run() {
    let mut vm = compile_with("sys s { nowhere }", vec![]);
    assert_eq!(vm.compile(), Err(RunError::CompilationFailed));
    assert!(vm.index.has_errors());
    let s = vm.get_system_id("main", "s").unwrap();
    assert!(matches!(vm.run_system(s), Err(RunError::CompilationFailed)));
}

#[test]
fn a_machine_that_is_done_stays_done() {
    let vm = compile("sys s { }", vec![]);
    let s = vm.get_system_id("main", "s").unwrap();
    let mut machine = vm.run_system(s).unwrap();
    let names = &vm.index.cache.names;
    let modules = &vm.index.modules;
    assert!(matches!(machine.step(modules, names, Event::Resume), Action::Continue));
    assert!(matches!(machine.step(modules, names, Event::Resume), Action::Continue));
    assert!(matches!(
        machine.step(modules, names, Event::Resume),
        Action::Finished(StorkValue::Unit)
    ));
    assert!(machine.is_finished());
    assert!(matches!(
        machine.step(modules, names, Event::Resume),
        Action::Failed(EvalError::NotRunning)
    ));
}

#[test]
fn an_answer_of_the_wrong_kind_ends_the_run() {
    let vm = compile("use std\n sys s { 1 }", vec![]);
    let s = vm.get_system_id("main", "s").unwrap();
    let mut machine = vm.run_system(s).unwrap();
    let names = &vm.index.cache.names;
    let modules = &vm.index.modules;
    let mut action = machine.step(modules, names, Event::Resume);
    while matches!(action, Action::Continue) {
        action = machine.step(modules, names, Event::Resume);
    }
    match action {
        Action::Number(text) => assert_eq!(text, "1"),
        other => panic!("unexpected action: {:?}", other),
    }
    assert!(matches!(
        machine.step(modules, names, Event::Entities(vec![])),
        Action::Failed(EvalError::UnexpectedEvent)
    ));
    assert!(machine.is_finished());
}

#[test]
fn unknown_system_and_module_are_not_found() {
    let vm = compile("sys s { }", vec![]);
    assert!(vm.get_system_id("main", "t").is_none());
    assert!(vm.get_system_id("nowhere", "s").is_none());
    assert_eq!(vm.get_system_id("main", "s"), Some(GlobalIdx(0, 1)));
}

#[test]
fn parentheses_group_operands() {
    let (value, printed) = final_state(
        "use std
         res R: f32
         sys s { print(-1+2*(-7+3)); print((1 + 2) * 3); [R] = ([R] - 2) * (3 + 1) }",
    );
    assert_eq!(printed, vec![-9., 9.]);
    assert_eq!(value, 40.);
}

#[test]
fn a_condition_may_stand_in_parentheses() {
    let (value, _) = final_state(
        "use std
         res R: f32
         sys s { if ([R] == 12) { [R] = 1 } else { [R] = 2 } }",
    );
    assert_eq!(value, 1.);
}

//! A compilation that can be run: the modules, what was worked out of
//! them, and the way to the machine that runs one of their systems.

use crate::borrow_resolution::effects_model;
use crate::cache::values_of;
use crate::compile::ModuleIndex;
use crate::hir::{GlobalIdx, IdentModel, Identifier, NodeIdx};
use crate::lower::LowerError;
use crate::machine::{Awaiting, FrameModel, MachineModel, Mode};
use crate::module_index::names_model;
use crate::report::{reports_model, ModuleID};
use crate::resolved_type::TypeModel;
use crate::stork_std;
use crate::tree_walker::VM;
use crate::type_resolution::kept_model;
use vstd::prelude::*;
use vstd::string::StringExecFns;

verus! {

/// Why a system cannot be run.
#[derive(Debug, Clone, Copy, PartialEq, Eq, Structural)]
pub enum RunError {
    /// The modules have diagnostics: what has errors is not run.
    CompilationFailed,
}

/// The index of the node that `name` stands for among `names`: that of
/// the last entry of the name.
pub open spec fn find_name(names: Seq<(IdentModel, NodeIdx)>, name: IdentModel) -> Option<NodeIdx>
    decreases names.len(),
{
    if names.len() == 0 {
        None
    } else if names.last().0 == name {
        Some(names.last().1)
    } else {
        find_name(names.drop_last(), name)
    }
}

/// The modules of a compilation, with what it takes to run their systems.
pub struct VMModuleIndex {
    pub index: ModuleIndex,
}

impl VMModuleIndex {
    /// An index without modules.
    pub fn new() -> (r: Self)
        ensures
            r.index.modules@.modules.len() == 0,
    {
        VMModuleIndex { index: ModuleIndex::new() }
    }

    /// Registers the module of the builtins under the path `std`: the
    /// builtin functions, then the types `f32` and `bool`.
    pub fn add_std(&mut self) -> (r: ModuleID)
        ensures
            r == old(self).index.modules@.modules.len(),
            final(self).index.modules@.modules.len() == r + 1,
            final(self).index.modules@.paths == old(self).index.modules@.paths.push(("std"@, r)),
            final(self).index.modules@.modules[r as int].nodes.len() == stork_std::BUILTIN_COUNT + 2,
            forall|k: int|
                0 <= k < stork_std::BUILTIN_COUNT ==> stork_std::is_builtin_function(
                    #[trigger] final(self).index.modules@.modules[r as int].nodes[k],
                    k,
                ),
            stork_std::is_builtin_type(
                final(self).index.modules@.modules[r as int].nodes[stork_std::BUILTIN_COUNT as int],
                "f32"@,
                TypeModel::F32,
            ),
            stork_std::is_builtin_type(
                final(self).index.modules@.modules[r as int].nodes[stork_std::BUILTIN_COUNT + 1],
                "bool"@,
                TypeModel::Bool,
            ),
    {
        self.index.add_module(String::from_str("std"), stork_std::new_module())
    }

    /// Compiles the modules from scratch. Fails where a module has a
    /// diagnostic afterwards.
    pub fn compile(&mut self) -> (r: Result<(), RunError>)
        ensures
            final(self).index.modules == old(self).index.modules,
            r.is_err() == final(self).index.spec_has_errors(),
            final(self).index.cache.names@ == final(self).index.modules@.all_names(),
            kept_model(final(self).index.cache.types@) == final(self).index.modules@.types_after(
                final(self).index.modules@.modules.len(),
            ),
            effects_model(final(self).index.cache.effects@) == final(self).index.modules@.effects_after(final(self).index.modules@.modules.len()),
            forall|m: ModuleID|
                reports_model(#[trigger] values_of(final(self).index.cache.errors@, m)) == final(self).index.modules@.pass_errors(m),
    {
        self.index.compile();
        if self.index.has_errors() {
            Err(RunError::CompilationFailed)
        } else {
            Ok(())
        }
    }

    /// The address of the top-level item `name` of the module registered
    /// under `path`, if there is such a module with such an item.
    pub fn get_system_id(&self, path: &str, name: &str) -> (r: Option<GlobalIdx>)
        ensures
            r == match self.index.modules@.module_of(path@) {
                Some(m) => if m < self.index.modules@.modules.len() {
                    match find_name(self.index.modules@.names(m), IdentModel::Name(name@)) {
                        Some(i) => Some(GlobalIdx(m, i)),
                        None => None,
                    }
                } else {
                    None
                },
                None => None,
            },
    {
        let m = match self.index.modules.path_to_id(path) {
            Some(m) => m,
            None => {
                return None;
            },
        };
        if m >= self.index.modules.len() {
            return None;
        }
        let names = self.index.modules.top_level_names(m);
        let wanted = Identifier::Name(name.to_owned());
        let ghost all = names_model(names@);
        let mut k: usize = names.len();
        assert(all.subrange(0, k as int) =~= all);
        while k > 0
            invariant
                k <= names@.len(),
                all == names_model(names@),
                all == self.index.modules@.names(m),
                self.index.modules@.module_of(path@) == Some(m),
                m < self.index.modules@.modules.len(),
                wanted@ == IdentModel::Name(name@),
                find_name(all, wanted@) == find_name(all.subrange(0, k as int), wanted@),
            decreases k,
        {
            proof {
                assert(all.subrange(0, k as int).drop_last() =~= all.subrange(0, k - 1));
                assert(all.subrange(0, k as int).last() == all[k - 1]);
            }
            if names[k - 1].0.same(&wanted) {
                return Some(GlobalIdx(m, names[k - 1].1));
            }
            k = k - 1;
        }
        assert(all.subrange(0, 0) =~= Seq::<(IdentModel, NodeIdx)>::empty());
        None
    }

    /// A machine that is about to run the system at `system_id`. What has
    /// diagnostics is not run.
    pub fn run_system(&self, system_id: GlobalIdx) -> (r: Result<VM, RunError>)
        ensures
            r.is_err() == self.index.spec_has_errors(),
            match r {
                Ok(vm) => vm@ == (MachineModel {
                    module: system_id.0,
                    frames: seq![
                        FrameModel {
                            node: system_id.1,
                            pc: 0,
                            acc: Seq::empty(),
                            mode: Mode::Value,
                        },
                    ],
                    variables: Map::empty(),
                    returned: None,
                    awaiting: Awaiting::Nothing,
                }),
                Err(e) => e == RunError::CompilationFailed,
            },
    {
        if self.index.has_errors() {
            Err(RunError::CompilationFailed)
        } else {
            Ok(VM::new(system_id))
        }
    }
}

} // verus!

//! A compilation: the registered modules, and what the passes work out of
//! them.

use crate::borrow_resolution;
use crate::borrow_resolution::effects_model;
use crate::cache::{values_of, Cache};
use crate::effects::{EffectModel, Names};
use crate::hir::GlobalIdx;
use crate::lower::{fits, lowered, LowerError};
use crate::module_index::{Module, ModuleCollection, World};
use crate::name_resolution;
use crate::report::{reports_model, ModuleID, Report, ReportModel};
use crate::type_resolution;
use crate::type_resolution::{kept_model, reports_for};
use crate::types::{TypeModelMap, TypeState};
use vstd::prelude::*;

verus! {

impl World {
    /// The names resolved once the first `k` modules are done.
    pub open spec fn names_after(self, k: nat) -> Names
        decreases k,
    {
        if k == 0 {
            Map::empty()
        } else {
            self.resolve_module(
                (k - 1) as ModuleID,
                self.names_after((k - 1) as nat),
                Seq::empty(),
            ).names
        }
    }

    /// The diagnostics of name resolution for module `m`.
    pub open spec fn name_errors(self, m: ModuleID) -> Seq<Report> {
        self.resolve_module(m, self.names_after(m as nat), Seq::empty()).errors
    }

    /// All names: those resolved once every module is done.
    pub open spec fn all_names(self) -> Names {
        self.names_after(self.modules.len())
    }

    /// What type resolution of module `m` yields, given the types kept
    /// before: the types kept after, and the diagnostics that arose.
    pub open spec fn type_pass(self, m: ModuleID, types: TypeModelMap) -> TypeState {
        self.ty_items(
            self.all_names(),
            m,
            self.tops[m as int],
            TypeState { types, errors: Seq::empty() },
        )
    }

    /// The types kept once the first `k` modules are done.
    pub open spec fn types_after(self, k: nat) -> TypeModelMap
        decreases k,
    {
        if k == 0 {
            Map::empty()
        } else {
            self.type_pass((k - 1) as ModuleID, self.types_after((k - 1) as nat)).types
        }
    }

    /// The diagnostics for module `m` that arose in type resolution of the
    /// first `k` modules, in order.
    pub open spec fn type_errors(self, m: ModuleID, k: nat) -> Seq<ReportModel>
        decreases k,
    {
        if k == 0 {
            Seq::empty()
        } else {
            self.type_errors(m, (k - 1) as nat) + reports_for(
                self.type_pass((k - 1) as ModuleID, self.types_after((k - 1) as nat)).errors,
                m,
            )
        }
    }

    /// The access sets recorded once the first `k` modules are done.
    pub open spec fn effects_after(self, k: nat) -> EffectModel
        decreases k,
    {
        if k == 0 {
            Map::empty()
        } else {
            self.effect_items(
                self.all_names(),
                (k - 1) as ModuleID,
                self.tops[k - 1],
                self.effects_after((k - 1) as nat),
            )
        }
    }

    /// The diagnostics of effect resolution for module `m`: those for its
    /// queries.
    pub open spec fn effect_errors(self, m: ModuleID) -> Seq<Report> {
        self.query_errors(
            m,
            self.effects_after((m + 1) as nat),
            self.modules[m as int].nodes.len(),
        )
    }

    /// The diagnostics of the passes for module `m`: those of name
    /// resolution, then those of type resolution, then those of effect
    /// resolution.
    pub open spec fn pass_errors(self, m: ModuleID) -> Seq<ReportModel> {
        (if m < self.modules.len() {
            reports_model(self.name_errors(m))
        } else {
            Seq::empty()
        }) + self.type_errors(m, self.modules.len()) + (if m < self.modules.len() {
            reports_model(self.effect_errors(m))
        } else {
            Seq::empty()
        })
    }
}

/// The modules of a compilation, and what was worked out when they were
/// compiled last.
pub struct ModuleIndex {
    pub modules: ModuleCollection,
    pub cache: Cache,
}

impl ModuleIndex {
    /// An index without modules.
    pub fn new() -> (r: Self)
        ensures
            r.modules@.modules.len() == 0,
    {
        ModuleIndex { modules: ModuleCollection::new(), cache: Cache::new() }
    }

    /// Registers `module` under `path`. Its identifier is the number of
    /// modules registered before it.
    pub fn add_module(&mut self, path: String, module: Module) -> (r: ModuleID)
        requires
            module.wf(),
        ensures
            r == old(self).modules@.modules.len(),
            final(self).modules@.modules == old(self).modules@.modules.push(module.ir()),
            final(self).modules@.tops == old(self).modules@.tops.push(module.top_level@),
            final(self).modules@.paths == old(self).modules@.paths.push((path@, r)),
            final(self).modules.module(r) == module,
            final(self).cache == old(self).cache,
    {
        let mut modules = ModuleCollection::new();
        std::mem::swap(&mut modules, &mut self.modules);
        let (modules, id) = modules.add(path, module);
        self.modules = modules;
        id
    }

    /// Parses and lowers `source` and registers it under `path`. Nothing is
    /// registered where the source needs more nodes than a module can hold,
    /// and only then.
    pub fn add_source(&mut self, path: String, source: &str) -> (r: Result<ModuleID, LowerError>)
        ensures
            match r {
                Ok(id) => {
                    &&& id == old(self).modules@.modules.len()
                    &&& final(self).modules@.modules.len() == id + 1
                    &&& final(self).modules@.paths == old(self).modules@.paths.push((path@, id))
                    &&& lowered(
                        final(self).modules.module(id),
                        crate::cst::parse_input(source, id).tree(),
                        source@,
                        id,
                        crate::cst::parse_input(source, id).errors(),
                    )
                },
                Err(e) => e == LowerError::TooManyNodes && final(self).modules == old(self).modules,
            },
            final(self).cache == old(self).cache,
            r.is_ok() == fits(
                crate::cst::parse_input(source, old(self).modules@.modules.len() as ModuleID).tree(),
            ),
    {
        let id = self.modules.len();
        match Module::from_source(source, id) {
            Ok(module) => Ok(self.add_module(path, module)),
            Err(e) => Err(e),
        }
    }

    /// Compiles the modules from scratch: resolves the names of every
    /// module, then the types, then the effects. What was worked out before
    /// is dropped.
    pub fn compile(&mut self)
        ensures
            final(self).modules == old(self).modules,
            final(self).cache.names@ == final(self).modules@.all_names(),
            kept_model(final(self).cache.types@) == final(self).modules@.types_after(
                final(self).modules@.modules.len(),
            ),
            effects_model(final(self).cache.effects@) == final(self).modules@.effects_after(
                final(self).modules@.modules.len(),
            ),
            forall|m: ModuleID|
                reports_model(#[trigger] values_of(final(self).cache.errors@, m)) == final(self).modules@.pass_errors(m),
    {
        self.cache = Cache::new();
        let n = self.modules.len();
        let ghost w = self.modules@;
        let mut k: usize = 0;
        while k < n
            invariant
                k <= n,
                n == w.modules.len(),
                self.modules == old(self).modules,
                w == self.modules@,
                self.cache.names@ == w.names_after(k as nat),
                self.cache.types@ == Map::<GlobalIdx, crate::resolved_type::ResolvedType>::empty(),
                self.cache.effects@ == Map::<
                    GlobalIdx,
                    crate::resolved_effect::ResolvedEffects,
                >::empty(),
                forall|m: ModuleID|
                    #[trigger] values_of(self.cache.errors@, m) == if m < k {
                        w.name_errors(m)
                    } else {
                        Seq::empty()
                    },
            decreases n - k,
        {
            let ghost before = self.cache.errors@;
            name_resolution::run(&mut self.cache, &self.modules, k);
            proof {
                assert forall|m: ModuleID|
                    #[trigger] values_of(self.cache.errors@, m) == if m < k + 1 {
                        w.name_errors(m)
                    } else {
                        Seq::empty()
                    } by {
                    if m == k {
                        assert(values_of(before, m) == Seq::<Report>::empty());
                        assert(Seq::<Report>::empty() + w.name_errors(m) =~= w.name_errors(m));
                    } else {
                        assert(values_of(self.cache.errors@, m) == values_of(before, m));
                    }
                }
            }
            k = k + 1;
        }
        let ghost names = self.cache.names@;
        let ghost named = self.cache.errors@;
        assert forall|m: ModuleID|
            #[trigger] values_of(named, m) == if m < n {
                w.name_errors(m)
            } else {
                Seq::empty()
            } by {}
        let mut k: usize = 0;
        assert(kept_model(self.cache.types@) =~= w.types_after(0));
        assert forall|m: ModuleID|
            reports_model(#[trigger] values_of(self.cache.errors@, m)) == reports_model(
                values_of(named, m),
            ) + w.type_errors(m, 0) by {
            assert(reports_model(values_of(named, m)) + Seq::<ReportModel>::empty()
                =~= reports_model(values_of(named, m)));
        }
        while k < n
            invariant
                k <= n,
                n == w.modules.len(),
                self.modules == old(self).modules,
                w == self.modules@,
                names == w.all_names(),
                self.cache.names@ == names,
                kept_model(self.cache.types@) == w.types_after(k as nat),
                self.cache.effects@ == Map::<
                    GlobalIdx,
                    crate::resolved_effect::ResolvedEffects,
                >::empty(),
                forall|m: ModuleID|
                    reports_model(#[trigger] values_of(self.cache.errors@, m)) == reports_model(
                        values_of(named, m),
                    ) + w.type_errors(m, k as nat),
            decreases n - k,
        {
            let ghost before = self.cache.errors@;
            type_resolution::run(&mut self.cache, &self.modules, k);
            proof {
                let pass = w.type_pass(k, w.types_after(k as nat));
                assert forall|m: ModuleID|
                    reports_model(#[trigger] values_of(self.cache.errors@, m)) == reports_model(
                        values_of(named, m),
                    ) + w.type_errors(m, (k + 1) as nat) by {
                    assert(reports_model(values_of(self.cache.errors@, m)) == reports_model(
                        values_of(before, m),
                    ) + reports_for(pass.errors, m));
                    assert((reports_model(values_of(named, m)) + w.type_errors(m, k as nat))
                        + reports_for(pass.errors, m) =~= reports_model(values_of(named, m)) + (
                    w.type_errors(m, k as nat) + reports_for(pass.errors, m)));
                }
            }
            k = k + 1;
        }
        let mut k: usize = 0;
        assert(effects_model(self.cache.effects@) =~= w.effects_after(0));
        assert forall|m: ModuleID|
            reports_model(#[trigger] values_of(self.cache.errors@, m)) == reports_model(
                values_of(named, m),
            ) + w.type_errors(m, n as nat) + (if m < 0 {
                reports_model(w.effect_errors(m))
            } else {
                Seq::empty()
            }) by {
            let base = reports_model(values_of(named, m)) + w.type_errors(m, n as nat);
            assert(base + Seq::<ReportModel>::empty() =~= base);
        }
        while k < n
            invariant
                k <= n,
                n == w.modules.len(),
                self.modules == old(self).modules,
                w == self.modules@,
                names == w.all_names(),
                self.cache.names@ == names,
                kept_model(self.cache.types@) == w.types_after(n as nat),
                effects_model(self.cache.effects@) == w.effects_after(k as nat),
                forall|m: ModuleID|
                    #[trigger] values_of(named, m) == if m < n {
                        w.name_errors(m)
                    } else {
                        Seq::empty()
                    },
                forall|m: ModuleID|
                    reports_model(#[trigger] values_of(self.cache.errors@, m)) == reports_model(
                        values_of(named, m),
                    ) + w.type_errors(m, n as nat) + (if m < k {
                        reports_model(w.effect_errors(m))
                    } else {
                        Seq::empty()
                    }),
            decreases n - k,
        {
            let ghost before = self.cache.errors@;
            borrow_resolution::run(&mut self.cache, &self.modules, k);
            proof {
                assert forall|m: ModuleID|
                    reports_model(#[trigger] values_of(self.cache.errors@, m)) == reports_model(
                        values_of(named, m),
                    ) + w.type_errors(m, n as nat) + (if m < k + 1 {
                        reports_model(w.effect_errors(m))
                    } else {
                        Seq::empty()
                    }) by {
                    let base = reports_model(values_of(named, m)) + w.type_errors(m, n as nat);
                    if m == k {
                        let added = w.effect_errors(m);
                        assert(values_of(self.cache.errors@, m) == values_of(before, m) + added);
                        assert(reports_model(values_of(before, m) + added) =~= reports_model(
                            values_of(before, m),
                        ) + reports_model(added));
                        assert(reports_model(values_of(before, m)) == base + Seq::<
                            ReportModel,
                        >::empty());
                        assert((base + Seq::<ReportModel>::empty()) + reports_model(added)
                            =~= base + reports_model(added));
                    } else {
                        assert(values_of(self.cache.errors@, m) == values_of(before, m));
                    }
                }
            }
            k = k + 1;
        }
        proof {
            assert forall|m: ModuleID|
                reports_model(#[trigger] values_of(self.cache.errors@, m)) == w.pass_errors(
                    m,
                ) by {
                if m >= n {
                    assert(reports_model(values_of(named, m)) =~= Seq::<ReportModel>::empty());
                }
            }
        }
    }

    /// Whether any module has a diagnostic, of the parser, of lowering or
    /// of a pass.
    pub open spec fn spec_has_errors(&self) -> bool {
        exists|m: ModuleID|
            m < self.modules@.modules.len() && (#[trigger] self.modules.module(
                m,
            )).parser_errors@.len() + values_of(self.cache.errors@, m).len() > 0
    }

    /// Whether any module has a diagnostic, of the parser, of lowering or
    /// of a pass.
    #[verifier::when_used_as_spec(spec_has_errors)]
    pub fn has_errors(&self) -> (r: bool)
        ensures
            r == self.spec_has_errors(),
    {
        let n = self.modules.len();
        let mut k: usize = 0;
        while k < n
            invariant
                k <= n,
                n == self.modules@.modules.len(),
                forall|m: ModuleID|
                    m < k ==> (#[trigger] self.modules.module(m)).parser_errors@.len() + values_of(
                        self.cache.errors@,
                        m,
                    ).len() == 0,
            decreases n - k,
        {
            if self.modules.get_ref(k).parser_errors.len() > 0 {
                return true;
            }
            match self.cache.errors.get_ref(k) {
                Some(errors) => {
                    if errors.len() > 0 {
                        return true;
                    }
                },
                None => {},
            }
            k = k + 1;
        }
        false
    }
}

} // verus!

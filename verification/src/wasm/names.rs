//! The custom section with the names of a module.
use std::collections::HashMap;
use vstd::prelude::*;

use super::debuginfo::WasmTranslationConfig;
use super::error::{
    fold, lemma_fold_entry, lemma_fold_goes_on, lemma_fold_keeps, outcome_keeps, read_failure,
    read_views, Outcome, Read, ReadErrorView, Step,
};
use super::module::{texts, Module, ModuleView, NamesView};
use super::payload::{
    LocalNames, LocalNamesView, NameEntry, NameSubsection, NameSubsectionView, NameView,
};

verus! {

broadcast use vstd::std_specs::hash::group_hash_axioms;

/// The names of the module, replaced.
pub open spec fn with_names(module: ModuleView, names: NamesView) -> ModuleView {
    ModuleView { names, ..module }
}

/// What the name of a function comes to. A name for a function that does not
/// exist is skipped.
pub open spec fn function_name(module: ModuleView, name: NameView) -> Outcome<ModuleView> {
    if name.index < module.functions.len() {
        Outcome::Next(
            with_names(
                module,
                NamesView {
                    func_names: module.names.func_names.insert(name.index, name.name),
                    ..module.names
                },
            ),
        )
    } else {
        Outcome::Next(module)
    }
}

/// [`function_name`], for a fold.
pub open spec fn function_names() -> spec_fn(ModuleView, NameView) -> Outcome<ModuleView> {
    |module: ModuleView, name: NameView| function_name(module, name)
}

/// What the name of a local of the function with the number `func` comes to.
pub open spec fn local_name(module: ModuleView, func: u32, name: NameView) -> ModuleView {
    let named = if module.names.locals_names.contains_key(func) {
        module.names.locals_names[func]
    } else {
        Map::empty()
    };
    with_names(
        module,
        NamesView {
            locals_names: module.names.locals_names.insert(
                func,
                named.insert(name.index, name.name),
            ),
            ..module.names
        },
    )
}

/// [`local_name`], for a fold.
pub open spec fn local_names(func: u32) -> spec_fn(ModuleView, NameView) -> Outcome<ModuleView> {
    |module: ModuleView, name: NameView| Outcome::Next(local_name(module, func, name))
}

/// What the names of the locals of a function come to. Names for a function
/// that does not exist are skipped.
pub open spec fn locals_of_function(module: ModuleView, locals: LocalNamesView) -> Outcome<
    ModuleView,
> {
    if locals.index < module.functions.len() {
        fold(module, locals.names, local_names(locals.index))
    } else {
        Outcome::Next(module)
    }
}

/// [`locals_of_function`], for a fold.
pub open spec fn locals_of_functions() -> spec_fn(ModuleView, LocalNamesView) -> Outcome<
    ModuleView,
> {
    |module: ModuleView, locals: LocalNamesView| locals_of_function(module, locals)
}

/// What the name of a global comes to. The reserved number names nothing.
pub open spec fn global_name(module: ModuleView, name: NameView) -> Outcome<ModuleView> {
    if name.index != u32::MAX {
        Outcome::Next(
            with_names(
                module,
                NamesView {
                    globals_names: module.names.globals_names.insert(name.index, name.name),
                    ..module.names
                },
            ),
        )
    } else {
        Outcome::Next(module)
    }
}

/// [`global_name`], for a fold.
pub open spec fn global_names() -> spec_fn(ModuleView, NameView) -> Outcome<ModuleView> {
    |module: ModuleView, name: NameView| global_name(module, name)
}

/// What a part of the name section comes to. The names of locals are used only
/// if debug information is generated.
pub open spec fn subsection_step(
    module: ModuleView,
    config: WasmTranslationConfig,
    subsection: NameSubsectionView,
) -> Outcome<ModuleView> {
    match subsection {
        NameSubsectionView::Module(name) => Outcome::Next(
            with_names(module, NamesView { module_name: Some(name), ..module.names }),
        ),
        NameSubsectionView::Function(names) => fold(module, names, function_names()),
        NameSubsectionView::Local(functions) => if config.generate_native_debuginfo {
            fold(module, functions, locals_of_functions())
        } else {
            Outcome::Next(module)
        },
        NameSubsectionView::Global(names) => fold(module, names, global_names()),
        NameSubsectionView::Other => Outcome::Next(module),
    }
}

/// [`subsection_step`], for a fold.
pub open spec fn subsection_steps(config: WasmTranslationConfig) -> spec_fn(
    ModuleView,
    NameSubsectionView,
) -> Outcome<ModuleView> {
    |module: ModuleView, subsection: NameSubsectionView| subsection_step(module, config, subsection)
}

/// What the name section comes to: its names up to the first error.
pub open spec fn name_section(
    module: ModuleView,
    config: WasmTranslationConfig,
    subsections: Seq<Result<NameSubsectionView, ReadErrorView>>,
) -> Outcome<ModuleView> {
    fold(module, subsections, subsection_steps(config))
}

/// The section with the names, read as far as it goes, changes names and
/// nothing else, and it always has a result.
pub proof fn name_section_changes_only_names(
    module: ModuleView,
    config: WasmTranslationConfig,
    subsections: Seq<Result<NameSubsectionView, ReadErrorView>>,
)
    ensures
        match name_section(module, config, subsections) {
            Outcome::Next(after) => after == with_names(module, after.names),
            Outcome::Fails(after, error) => after == with_names(module, after.names),
            Outcome::Halts => false,
        },
    decreases subsections.len(),
{
    let keeps = |after: ModuleView| after == with_names(module, after.names);
    if subsections.len() > 0 {
        name_section_changes_only_names(module, config, subsections.drop_last());
        if let Outcome::Next(before) = name_section(module, config, subsections.drop_last()) {
            if let Ok(subsection) = subsections.last() {
                match subsection {
                    NameSubsectionView::Function(names) => {
                        lemma_fold_keeps(before, names, function_names(), keeps);
                        lemma_fold_goes_on(before, names, function_names());
                    },
                    NameSubsectionView::Local(functions) => {
                        assert forall|state: ModuleView, locals: LocalNamesView|
                            keeps(state) implies outcome_keeps(
                            #[trigger] locals_of_functions()(state, locals),
                            keeps,
                        ) by {
                            lemma_fold_keeps(
                                state,
                                locals.names,
                                local_names(locals.index),
                                keeps,
                            );
                        }
                        assert forall|state: ModuleView, locals: LocalNamesView| !(
                        #[trigger] locals_of_functions()(state, locals) is Halts) by {
                            lemma_fold_goes_on(state, locals.names, local_names(locals.index));
                        }
                        lemma_fold_keeps(before, functions, locals_of_functions(), keeps);
                        lemma_fold_goes_on(before, functions, locals_of_functions());
                    },
                    NameSubsectionView::Global(names) => {
                        lemma_fold_keeps(before, names, global_names(), keeps);
                        lemma_fold_goes_on(before, names, global_names());
                    },
                    _ => {},
                }
            }
        }
    }
}

/// Whether debug information is generated matters to the names of locals, and
/// to no other names.
pub proof fn only_local_names_depend_on_the_configuration(
    module: ModuleView,
    config: WasmTranslationConfig,
    other: WasmTranslationConfig,
    subsection: NameSubsectionView,
)
    requires
        !(subsection is Local),
    ensures
        subsection_step(module, config, subsection) == subsection_step(module, other, subsection),
{
}

/// Inserting a string inserts its text.
proof fn lemma_texts_insert(map: Map<u32, String>, key: u32, name: String)
    ensures
        texts(map.insert(key, name)) == texts(map).insert(key, name@),
{
    assert(texts(map.insert(key, name)) =~= texts(map).insert(key, name@));
}

impl Module {
    /// Names a function.
    fn name_function(&mut self, name: &NameEntry<'_>)
        requires
            old(self)@.wf(),
        ensures
            function_name(old(self)@, name@) == Outcome::Next(final(self)@),
            final(self)@.wf(),
    {
        if (name.index as usize) < self.functions.len() {
            let text: String = name.name.to_owned();
            proof {
                lemma_texts_insert(self.name_section.func_names@, name.index, text);
            }
            self.name_section.func_names.insert(name.index, text);
        }
    }

    /// Names functions, up to the first error.
    fn name_functions(&mut self, names: &Vec<Read<NameEntry<'_>>>) -> (step: Step)
        requires
            old(self)@.wf(),
        ensures
            step.came_to(
                fold(old(self)@, read_views(names@), function_names()),
                final(self)@,
            ),
            final(self)@.wf(),
            !(step is Halt),
    {
        let ghost all = read_views(names@);
        let mut i: usize = 0;
        while i < names.len()
            invariant
                i <= names@.len(),
                all == read_views(names@),
                self@.wf(),
                fold(old(self)@, all.take(i as int), function_names()) == Outcome::Next(self@),
            decreases names@.len() - i,
        {
            proof {
                lemma_fold_entry(old(self)@, all, i as int, function_names(), self@);
            }
            match &names[i] {
                Ok(name) => self.name_function(name),
                Err(error) => return Step::Fail(read_failure(error)),
            }
            i = i + 1;
        }
        assert(all.take(i as int) =~= all);
        Step::Continue
    }

    /// Names a local of the function with the number `func`.
    fn name_local(&mut self, func: u32, name: &NameEntry<'_>)
        requires
            old(self)@.wf(),
            func < old(self)@.functions.len(),
        ensures
            final(self)@ == local_name(old(self)@, func, name@),
            final(self)@.wf(),
    {
        let ghost before = self.name_section.locals_names@;
        let mut named: HashMap<u32, String> = match self.name_section.locals_names.remove(&func) {
            Some(named) => named,
            None => HashMap::new(),
        };
        let ghost texts_before = texts(named@);
        assert(!before.contains_key(func) ==> texts_before =~= Map::empty());
        let text: String = name.name.to_owned();
        proof {
            lemma_texts_insert(named@, name.index, text);
        }
        named.insert(name.index, text);
        self.name_section.locals_names.insert(func, named);
        assert(self@.names.locals_names =~= local_name(old(self)@, func, name@).names.locals_names);
    }

    /// Names locals of functions, up to the first error.
    fn name_locals(&mut self, functions: &Vec<Read<LocalNames<'_>>>) -> (step: Step)
        requires
            old(self)@.wf(),
        ensures
            step.came_to(
                fold(old(self)@, read_views(functions@), locals_of_functions()),
                final(self)@,
            ),
            final(self)@.wf(),
            !(step is Halt),
    {
        let ghost all = read_views(functions@);
        let mut i: usize = 0;
        while i < functions.len()
            invariant
                i <= functions@.len(),
                all == read_views(functions@),
                self@.wf(),
                fold(old(self)@, all.take(i as int), locals_of_functions()) == Outcome::Next(self@),
            decreases functions@.len() - i,
        {
            proof {
                lemma_fold_entry(old(self)@, all, i as int, locals_of_functions(), self@);
            }
            match &functions[i] {
                Ok(locals) => match self.name_locals_of(locals) {
                    Step::Continue => {},
                    stuck => return stuck,
                },
                Err(error) => return Step::Fail(read_failure(error)),
            }
            i = i + 1;
        }
        assert(all.take(i as int) =~= all);
        Step::Continue
    }

    /// Names the locals of a function, up to the first error.
    fn name_locals_of(&mut self, locals: &LocalNames<'_>) -> (step: Step)
        requires
            old(self)@.wf(),
        ensures
            step.came_to(locals_of_function(old(self)@, locals@), final(self)@),
            final(self)@.wf(),
            !(step is Halt),
    {
        if locals.index as usize >= self.functions.len() {
            return Step::Continue;
        }
        let ghost all = read_views(locals.names@);
        let mut i: usize = 0;
        while i < locals.names.len()
            invariant
                i <= locals.names@.len(),
                all == read_views(locals.names@),
                self@.wf(),
                locals.index < self@.functions.len(),
                locals.index < old(self)@.functions.len(),
                fold(old(self)@, all.take(i as int), local_names(locals.index)) == Outcome::Next(
                    self@,
                ),
            decreases locals.names@.len() - i,
        {
            proof {
                lemma_fold_entry(old(self)@, all, i as int, local_names(locals.index), self@);
            }
            match &locals.names[i] {
                Ok(name) => self.name_local(locals.index, name),
                Err(error) => return Step::Fail(read_failure(error)),
            }
            i = i + 1;
        }
        assert(all.take(i as int) =~= all);
        Step::Continue
    }

    /// Names globals, up to the first error.
    fn name_globals(&mut self, names: &Vec<Read<NameEntry<'_>>>) -> (step: Step)
        requires
            old(self)@.wf(),
        ensures
            step.came_to(fold(old(self)@, read_views(names@), global_names()), final(self)@),
            final(self)@.wf(),
            !(step is Halt),
    {
        let ghost all = read_views(names@);
        let mut i: usize = 0;
        while i < names.len()
            invariant
                i <= names@.len(),
                all == read_views(names@),
                self@.wf(),
                fold(old(self)@, all.take(i as int), global_names()) == Outcome::Next(self@),
            decreases names@.len() - i,
        {
            proof {
                lemma_fold_entry(old(self)@, all, i as int, global_names(), self@);
            }
            match &names[i] {
                Ok(name) => {
                    if name.index != u32::MAX {
                        let text: String = name.name.to_owned();
                        proof {
                            lemma_texts_insert(self.name_section.globals_names@, name.index, text);
                        }
                        self.name_section.globals_names.insert(name.index, text);
                    }
                },
                Err(error) => return Step::Fail(read_failure(error)),
            }
            i = i + 1;
        }
        assert(all.take(i as int) =~= all);
        Step::Continue
    }

    /// Takes a part of the name section.
    fn name_subsection(
        &mut self,
        config: &WasmTranslationConfig,
        subsection: &NameSubsection<'_>,
    ) -> (step: Step)
        requires
            old(self)@.wf(),
        ensures
            step.came_to(subsection_step(old(self)@, *config, subsection@), final(self)@),
            final(self)@.wf(),
            !(step is Halt),
    {
        match subsection {
            NameSubsection::Module(name) => {
                self.name_section.module_name = Some((*name).to_owned());
                Step::Continue
            },
            NameSubsection::Function(names) => self.name_functions(names),
            NameSubsection::Local(functions) => {
                if config.generate_native_debuginfo {
                    self.name_locals(functions)
                } else {
                    Step::Continue
                }
            },
            NameSubsection::Global(names) => self.name_globals(names),
            NameSubsection::Other => Step::Continue,
        }
    }

    /// Takes the name section, up to the first error.
    pub fn name_section(
        &mut self,
        config: &WasmTranslationConfig,
        subsections: &Vec<Read<NameSubsection<'_>>>,
    ) -> (step: Step)
        requires
            old(self)@.wf(),
        ensures
            step.came_to(name_section(old(self)@, *config, read_views(subsections@)), final(self)@),
            final(self)@.wf(),
            !(step is Halt),
    {
        let ghost all = read_views(subsections@);
        let mut i: usize = 0;
        while i < subsections.len()
            invariant
                i <= subsections@.len(),
                all == read_views(subsections@),
                self@.wf(),
                fold(old(self)@, all.take(i as int), subsection_steps(*config)) == Outcome::Next(
                    self@,
                ),
            decreases subsections@.len() - i,
        {
            proof {
                lemma_fold_entry(old(self)@, all, i as int, subsection_steps(*config), self@);
            }
            match &subsections[i] {
                Ok(subsection) => match self.name_subsection(config, subsection) {
                    Step::Continue => {},
                    stuck => return stuck,
                },
                Err(error) => return Step::Fail(read_failure(error)),
            }
            i = i + 1;
        }
        assert(all.take(i as int) =~= all);
        Step::Continue
    }
}

} // verus!

//! What the section with the names names, and how.
use vstd::prelude::*;

use super::debuginfo::WasmTranslationConfig;
use super::error::{
    entries_after_the_end_are_ignored, fold, lemma_fold_entry, lemma_fold_push, ErrorView, Outcome,
    ReadErrorView,
};
use super::module::{ModuleView, NamesView};
use super::module_env::{payload_step, EnvView};
use super::names::{
    function_names, global_names, local_names, locals_of_functions, name_section,
    name_section_changes_only_names, subsection_steps,
};
use super::payload::{LocalNamesView, NameSubsectionView, NameView, PayloadView};
use super::translation::TranslationView;
use super::warning::WarningView;

verus! {

/// Whether an entry is a name for the entity with the number `index`.
pub open spec fn is_name_for(entry: Result<NameView, ReadErrorView>, index: u32) -> bool {
    entry matches Ok(name) && name.index == index
}

/// Whether the entry `i` is the last name for the entity with the number `index`.
pub open spec fn is_last_name(
    names: Seq<Result<NameView, ReadErrorView>>,
    i: int,
    index: u32,
) -> bool {
    &&& 0 <= i < names.len()
    &&& is_name_for(names[i], index)
    &&& forall|j: int| i < j < names.len() ==> !is_name_for(#[trigger] names[j], index)
}

/// Whether `new` has for each of the first `n` entities the last of `names` that
/// is for it, and else what `old` has.
pub open spec fn gives_names(
    names: Seq<Result<NameView, ReadErrorView>>,
    n: int,
    old: Map<u32, Seq<char>>,
    new: Map<u32, Seq<char>>,
) -> bool {
    &&& forall|i: int, index: u32| #[trigger]
        is_last_name(names, i, index) && index < n ==> new.contains_key(index) && new[index]
            == names[i]->Ok_0.name
    &&& forall|index: u32|
        (index >= n || forall|i: int|
            0 <= i < names.len() ==> !is_name_for(#[trigger] names[i], index)) ==> (
        #[trigger] new.contains_key(index) <==> old.contains_key(index)) && (old.contains_key(index)
            ==> new[index] == old[index])
}

/// Whether all names could be read.
pub open spec fn all_read(names: Seq<Result<NameView, ReadErrorView>>) -> bool {
    forall|i: int| 0 <= i < names.len() ==> #[trigger] names[i] is Ok
}

/// No names give nothing.
proof fn lemma_no_names(n: int, map: Map<u32, Seq<char>>)
    ensures
        gives_names(Seq::empty(), n, map, map),
{
}

/// One more name is the last one for its entity.
proof fn lemma_one_more_name(
    names: Seq<Result<NameView, ReadErrorView>>,
    n: int,
    old: Map<u32, Seq<char>>,
    middle: Map<u32, Seq<char>>,
    name: NameView,
)
    requires
        gives_names(names, n, old, middle),
    ensures
        gives_names(
            names.push(Ok(name)),
            n,
            old,
            if name.index < n {
                middle.insert(name.index, name.name)
            } else {
                middle
            },
        ),
{
    let more = names.push(Ok(name));
    let new = if name.index < n {
        middle.insert(name.index, name.name)
    } else {
        middle
    };
    assert forall|i: int, index: u32| #[trigger]
        is_last_name(more, i, index) && index < n implies new.contains_key(index) && new[index]
        == more[i]->Ok_0.name by {
        assert(more[names.len() as int] == Ok::<NameView, ReadErrorView>(name));
        if i < names.len() {
            assert(!is_name_for(more[names.len() as int], index));
            assert forall|j: int| i < j < names.len() implies !is_name_for(
                #[trigger] names[j],
                index,
            ) by {
                assert(more[j] == names[j]);
            }
            assert(is_last_name(names, i, index));
        }
    }
    assert forall|index: u32|
        (index >= n || forall|i: int|
            0 <= i < more.len() ==> !is_name_for(#[trigger] more[i], index)) implies (
    #[trigger] new.contains_key(index) <==> old.contains_key(index)) && (old.contains_key(index)
        ==> new[index] == old[index]) by {
        if index < n {
            assert(!is_name_for(more[names.len() as int], index));
            assert forall|i: int| 0 <= i < names.len() implies !is_name_for(
                #[trigger] names[i],
                index,
            ) by {
                assert(more[i] == names[i]);
            }
        }
        assert(middle.contains_key(index) <==> old.contains_key(index));
    }
}

/// The entities that are named, among those that exist.
spec fn function_names_given(
    names: Seq<Result<NameView, ReadErrorView>>,
    before: ModuleView,
    after: ModuleView,
) -> bool {
    &&& gives_names(
        names,
        before.functions.len() as int,
        before.names.func_names,
        after.names.func_names,
    )
    &&& after == (ModuleView {
        names: NamesView { func_names: after.names.func_names, ..before.names },
        ..before
    })
}

/// Names of functions, all of which could be read, are given.
proof fn lemma_function_names(module: ModuleView, names: Seq<Result<NameView, ReadErrorView>>)
    requires
        all_read(names),
    ensures
        fold(module, names, function_names()) matches Outcome::Next(after) && function_names_given(
            names,
            module,
            after,
        ),
    decreases names.len(),
{
    let n = module.functions.len() as int;
    if names.len() == 0 {
        lemma_no_names(n, module.names.func_names);
        assert(names =~= Seq::empty());
    } else {
        let rest = names.drop_last();
        assert forall|i: int| 0 <= i < rest.len() implies #[trigger] rest[i] is Ok by {
            assert(names[i] is Ok);
        }
        lemma_function_names(module, rest);
        let middle = fold(module, rest, function_names())->Next_0;
        assert(names[names.len() - 1] is Ok);
        let last = names.last()->Ok_0;
        lemma_one_more_name(rest, n, module.names.func_names, middle.names.func_names, last);
        assert(names =~= rest.push(Ok(last)));
    }
}

/// The globals that are named, but for the one with the largest number.
spec fn global_names_given(
    names: Seq<Result<NameView, ReadErrorView>>,
    before: ModuleView,
    after: ModuleView,
) -> bool {
    &&& gives_names(
        names,
        0xffff_ffff,
        before.names.globals_names,
        after.names.globals_names,
    )
    &&& after == (ModuleView {
        names: NamesView { globals_names: after.names.globals_names, ..before.names },
        ..before
    })
}

/// Names of globals, all of which could be read, are given.
proof fn lemma_global_names(module: ModuleView, names: Seq<Result<NameView, ReadErrorView>>)
    requires
        all_read(names),
    ensures
        fold(module, names, global_names()) matches Outcome::Next(after) && global_names_given(
            names,
            module,
            after,
        ),
    decreases names.len(),
{
    let n: int = 0xffff_ffff;
    if names.len() == 0 {
        lemma_no_names(n, module.names.globals_names);
        assert(names =~= Seq::empty());
    } else {
        let rest = names.drop_last();
        assert forall|i: int| 0 <= i < rest.len() implies #[trigger] rest[i] is Ok by {
            assert(names[i] is Ok);
        }
        lemma_global_names(module, rest);
        let middle = fold(module, rest, global_names())->Next_0;
        assert(names[names.len() - 1] is Ok);
        let last = names.last()->Ok_0;
        lemma_one_more_name(rest, n, module.names.globals_names, middle.names.globals_names, last);
        assert(names =~= rest.push(Ok(last)));
    }
}

/// What the names of the locals of the function with the number `func` are.
pub open spec fn locals_named(module: ModuleView, func: u32) -> Map<u32, Seq<char>> {
    if module.names.locals_names.contains_key(func) {
        module.names.locals_names[func]
    } else {
        Map::empty()
    }
}

/// Whether `after` differs from `before` in that locals of the function with the
/// number `func` have the last of `names` that is for them.
pub open spec fn local_names_given(
    names: Seq<Result<NameView, ReadErrorView>>,
    func: u32,
    before: ModuleView,
    after: ModuleView,
) -> bool {
    &&& gives_names(
        names,
        0x1_0000_0000,
        locals_named(before, func),
        locals_named(after, func),
    )
    &&& names.len() > 0 ==> after.names.locals_names.contains_key(func)
    &&& names.len() == 0 ==> after.names.locals_names == before.names.locals_names
    &&& after.names.locals_names.remove(func) == before.names.locals_names.remove(func)
    &&& after == (ModuleView {
        names: NamesView { locals_names: after.names.locals_names, ..before.names },
        ..before
    })
}

/// Names of locals, all of which could be read, are given.
proof fn lemma_local_names(
    module: ModuleView,
    func: u32,
    names: Seq<Result<NameView, ReadErrorView>>,
)
    requires
        all_read(names),
    ensures
        fold(module, names, local_names(func)) matches Outcome::Next(after) && local_names_given(
            names,
            func,
            module,
            after,
        ),
    decreases names.len(),
{
    let n: int = 0x1_0000_0000;
    if names.len() == 0 {
        lemma_no_names(n, locals_named(module, func));
        assert(names =~= Seq::empty());
    } else {
        let rest = names.drop_last();
        assert forall|i: int| 0 <= i < rest.len() implies #[trigger] rest[i] is Ok by {
            assert(names[i] is Ok);
        }
        lemma_local_names(module, func, rest);
        let middle = fold(module, rest, local_names(func))->Next_0;
        let after = fold(module, names, local_names(func))->Next_0;
        assert(names[names.len() - 1] is Ok);
        let last = names.last()->Ok_0;
        lemma_one_more_name(
            rest,
            n,
            locals_named(module, func),
            locals_named(middle, func),
            last,
        );
        assert(names =~= rest.push(Ok(last)));
        assert(after.names.locals_names.remove(func) =~= middle.names.locals_names.remove(func));
    }
}

/// The first names of a list, which could be read, when the next one could not.
pub open spec fn stops_at(names: Seq<Result<NameView, ReadErrorView>>, k: int) -> bool {
    &&& 0 <= k < names.len()
    &&& names[k] is Err
    &&& forall|i: int| 0 <= i < k ==> #[trigger] names[i] is Ok
}

/// A part of the name section with names of functions gives every function that
/// exists and is named there the last name that is given for it. Functions that
/// are not named there keep what they had, functions that do not exist get no
/// name, and nothing else changes. A name that cannot be read ends the section
/// with its error; the names before it stay.
pub proof fn functions_get_the_last_name_given(
    module: ModuleView,
    config: WasmTranslationConfig,
    subsections: Seq<Result<NameSubsectionView, ReadErrorView>>,
    names: Seq<Result<NameView, ReadErrorView>>,
    before: ModuleView,
)
    requires
        name_section(module, config, subsections) == Outcome::Next(before),
    ensures
        ({
            let outcome = name_section(
                module,
                config,
                subsections.push(Ok(NameSubsectionView::Function(names))),
            );
            let n = before.functions.len() as int;
            let old = before.names;
            &&& all_read(names) ==> {
                &&& outcome matches Outcome::Next(after)
                &&& gives_names(names, n, old.func_names, after.names.func_names)
                &&& after == (ModuleView {
                    names: NamesView { func_names: after.names.func_names, ..old },
                    ..before
                })
            }
            &&& forall|k: int| #[trigger]
                stops_at(names, k) ==> {
                    &&& outcome matches Outcome::Fails(after, error)
                    &&& gives_names(names.take(k), n, old.func_names, after.names.func_names)
                    &&& after == (ModuleView {
                        names: NamesView { func_names: after.names.func_names, ..old },
                        ..before
                    })
                    &&& error == (ErrorView::InvalidWebAssembly {
                        message: names[k]->Err_0.message,
                        offset: names[k]->Err_0.offset,
                    })
                }
        }),
{
    let part = NameSubsectionView::Function(names);
    lemma_fold_push(module, subsections, Ok(part), subsection_steps(config), before);
    if all_read(names) {
        lemma_function_names(before, names);
    }
    assert forall|k: int| #[trigger] stops_at(names, k) implies {
        let outcome = name_section(module, config, subsections.push(Ok(part)));
        &&& outcome matches Outcome::Fails(after, error)
        &&& function_names_given(names.take(k), before, after)
        &&& error == (ErrorView::InvalidWebAssembly {
            message: names[k]->Err_0.message,
            offset: names[k]->Err_0.offset,
        })
    } by {
        lemma_function_names(before, names.take(k));
        let state = fold(before, names.take(k), function_names())->Next_0;
        lemma_fold_entry(before, names, k, function_names(), state);
    }
}

/// A part of the name section with names of globals gives every global but the
/// one with the largest number the last name that is given for it there. Globals
/// that are not named there keep what they had, and nothing else changes. A name
/// that cannot be read ends the section with its error; the names before it stay.
pub proof fn globals_get_the_last_name_given(
    module: ModuleView,
    config: WasmTranslationConfig,
    subsections: Seq<Result<NameSubsectionView, ReadErrorView>>,
    names: Seq<Result<NameView, ReadErrorView>>,
    before: ModuleView,
)
    requires
        name_section(module, config, subsections) == Outcome::Next(before),
    ensures
        ({
            let outcome = name_section(
                module,
                config,
                subsections.push(Ok(NameSubsectionView::Global(names))),
            );
            let n = 0xffff_ffff;
            let old = before.names;
            &&& all_read(names) ==> {
                &&& outcome matches Outcome::Next(after)
                &&& gives_names(names, n, old.globals_names, after.names.globals_names)
                &&& after == (ModuleView {
                    names: NamesView { globals_names: after.names.globals_names, ..old },
                    ..before
                })
            }
            &&& forall|k: int| #[trigger]
                stops_at(names, k) ==> {
                    &&& outcome matches Outcome::Fails(after, error)
                    &&& gives_names(names.take(k), n, old.globals_names, after.names.globals_names)
                    &&& after == (ModuleView {
                        names: NamesView { globals_names: after.names.globals_names, ..old },
                        ..before
                    })
                    &&& error == (ErrorView::InvalidWebAssembly {
                        message: names[k]->Err_0.message,
                        offset: names[k]->Err_0.offset,
                    })
                }
        }),
{
    let part = NameSubsectionView::Global(names);
    lemma_fold_push(module, subsections, Ok(part), subsection_steps(config), before);
    if all_read(names) {
        lemma_global_names(before, names);
    }
    assert forall|k: int| #[trigger] stops_at(names, k) implies {
        let outcome = name_section(module, config, subsections.push(Ok(part)));
        &&& outcome matches Outcome::Fails(after, error)
        &&& global_names_given(names.take(k), before, after)
        &&& error == (ErrorView::InvalidWebAssembly {
            message: names[k]->Err_0.message,
            offset: names[k]->Err_0.offset,
        })
    } by {
        lemma_global_names(before, names.take(k));
        let state = fold(before, names.take(k), global_names())->Next_0;
        lemma_fold_entry(before, names, k, global_names(), state);
    }
}

/// One more function in a part of the name section with names of locals gives
/// the locals that are named there the last name that is given for them, if the
/// function exists and debug information is generated. Other locals keep what
/// they had, and nothing else changes. A name that cannot be read ends the
/// section with its error; the names before it stay.
pub proof fn locals_get_the_last_name_given(
    module: ModuleView,
    config: WasmTranslationConfig,
    subsections: Seq<Result<NameSubsectionView, ReadErrorView>>,
    functions: Seq<Result<LocalNamesView, ReadErrorView>>,
    locals: LocalNamesView,
    before: ModuleView,
)
    requires
        name_section(
            module,
            config,
            subsections.push(Ok(NameSubsectionView::Local(functions))),
        ) == Outcome::Next(before),
    ensures
        ({
            let outcome = name_section(
                module,
                config,
                subsections.push(Ok(NameSubsectionView::Local(functions.push(Ok(locals))))),
            );
            let names = locals.names;
            if config.generate_native_debuginfo && locals.index < before.functions.len() {
                &&& all_read(names) ==> {
                    &&& outcome matches Outcome::Next(after)
                    &&& local_names_given(names, locals.index, before, after)
                }
                &&& forall|k: int| #[trigger]
                    stops_at(names, k) ==> {
                        &&& outcome matches Outcome::Fails(after, error)
                        &&& local_names_given(names.take(k), locals.index, before, after)
                        &&& error == (ErrorView::InvalidWebAssembly {
                            message: names[k]->Err_0.message,
                            offset: names[k]->Err_0.offset,
                        })
                    }
            } else {
                outcome == Outcome::Next(before)
            }
        }),
{
    let less = NameSubsectionView::Local(functions);
    let more = NameSubsectionView::Local(functions.push(Ok(locals)));
    let steps = subsection_steps(config);
    assert(subsections.push(Ok(less)).drop_last() =~= subsections);
    let start = name_section(module, config, subsections)->Next_0;
    lemma_fold_push(module, subsections, Ok(less), steps, start);
    lemma_fold_push(module, subsections, Ok(more), steps, start);
    let names = locals.names;
    if config.generate_native_debuginfo {
        lemma_fold_push(start, functions, Ok(locals), locals_of_functions(), before);
        if locals.index < before.functions.len() {
            if all_read(names) {
                lemma_local_names(before, locals.index, names);
            }
            assert forall|k: int| #[trigger] stops_at(names, k) implies {
                let outcome = name_section(module, config, subsections.push(Ok(more)));
                &&& outcome matches Outcome::Fails(after, error)
                &&& local_names_given(names.take(k), locals.index, before, after)
                &&& error == (ErrorView::InvalidWebAssembly {
                    message: names[k]->Err_0.message,
                    offset: names[k]->Err_0.offset,
                })
            } by {
                lemma_local_names(before, locals.index, names.take(k));
                let state = fold(before, names.take(k), local_names(locals.index))->Next_0;
                lemma_fold_entry(before, names, k, local_names(locals.index), state);
            }
        }
    }
}

/// A part of the name section with the name of the module names the module. One
/// with no locals, or with names that are not used, changes nothing. One that
/// cannot be read ends the section with its error, and so does an entry in the
/// names of locals, if these are used.
pub proof fn other_parts_of_the_name_section(
    module: ModuleView,
    config: WasmTranslationConfig,
    subsections: Seq<Result<NameSubsectionView, ReadErrorView>>,
    name: Seq<char>,
    error: ReadErrorView,
    before: ModuleView,
)
    requires
        name_section(module, config, subsections) == Outcome::Next(before),
    ensures
        name_section(
            module,
            config,
            subsections.push(Ok(NameSubsectionView::Module(name))),
        ) == (Outcome::Next(
            ModuleView {
                names: NamesView { module_name: Some(name), ..before.names },
                ..before
            },
        )),
        name_section(
            module,
            config,
            subsections.push(Ok(NameSubsectionView::Local(Seq::empty()))),
        ) == Outcome::Next(before),
        name_section(module, config, subsections.push(Ok(NameSubsectionView::Other)))
            == Outcome::Next(before),
        name_section(module, config, subsections.push(Err(error))) == (Outcome::Fails(
            before,
            ErrorView::InvalidWebAssembly { message: error.message, offset: error.offset },
        )),
        name_section(module, config, Seq::empty()) == Outcome::Next(module),
{
    let steps = subsection_steps(config);
    lemma_fold_push(module, subsections, Ok(NameSubsectionView::Module(name)), steps, before);
    lemma_fold_push(
        module,
        subsections,
        Ok(NameSubsectionView::Local(Seq::empty())),
        steps,
        before,
    );
    lemma_fold_push(module, subsections, Ok(NameSubsectionView::Other), steps, before);
    lemma_fold_push(module, subsections, Err(error), steps, before);
}

/// Names of the locals of functions that cannot be read end the section with the
/// error, if debug information is generated, and change nothing otherwise.
pub proof fn locals_that_cannot_be_read_matter_to_debug_information(
    module: ModuleView,
    config: WasmTranslationConfig,
    subsections: Seq<Result<NameSubsectionView, ReadErrorView>>,
    functions: Seq<Result<LocalNamesView, ReadErrorView>>,
    error: ReadErrorView,
    before: ModuleView,
)
    requires
        name_section(
            module,
            config,
            subsections.push(Ok(NameSubsectionView::Local(functions))),
        ) == Outcome::Next(before),
    ensures
        name_section(
            module,
            config,
            subsections.push(Ok(NameSubsectionView::Local(functions.push(Err(error))))),
        ) == if config.generate_native_debuginfo {
            Outcome::Fails(
                before,
                ErrorView::InvalidWebAssembly { message: error.message, offset: error.offset },
            )
        } else {
            Outcome::Next(before)
        },
{
    let less = NameSubsectionView::Local(functions);
    let more = NameSubsectionView::Local(functions.push(Err(error)));
    let steps = subsection_steps(config);
    assert(subsections.push(Ok(less)).drop_last() =~= subsections);
    let start = name_section(module, config, subsections)->Next_0;
    lemma_fold_push(module, subsections, Ok(less), steps, start);
    lemma_fold_push(module, subsections, Ok(more), steps, start);
    if config.generate_native_debuginfo {
        lemma_fold_push(start, functions, Err(error), locals_of_functions(), before);
    }
}

/// Once the name section has ended with an error, what is behind it changes
/// nothing; nor do names behind an error in the names of locals.
pub proof fn names_behind_an_error_change_nothing(
    module: ModuleView,
    config: WasmTranslationConfig,
    subsections: Seq<Result<NameSubsectionView, ReadErrorView>>,
    more: Seq<Result<NameSubsectionView, ReadErrorView>>,
    functions: Seq<Result<LocalNamesView, ReadErrorView>>,
    behind: Seq<Result<LocalNamesView, ReadErrorView>>,
)
    ensures
        !(name_section(module, config, subsections) is Next) ==> name_section(
            module,
            config,
            subsections + more,
        ) == name_section(module, config, subsections),
        ({
            let broken = subsections.push(Ok(NameSubsectionView::Local(functions)));
            let longer = subsections.push(Ok(NameSubsectionView::Local(functions + behind)));
            !(name_section(module, config, broken) is Next) ==> name_section(
                module,
                config,
                longer,
            ) == name_section(module, config, broken)
        }),
{
    let steps = subsection_steps(config);
    let n = subsections.len() as int;
    assert((subsections + more).take(n) =~= subsections);
    if !(name_section(module, config, subsections) is Next) {
        entries_after_the_end_are_ignored(module, subsections + more, n, steps);
    }
    let broken = subsections.push(Ok(NameSubsectionView::Local(functions)));
    let longer = subsections.push(Ok(NameSubsectionView::Local(functions + behind)));
    assert(broken.drop_last() =~= subsections);
    assert(longer.drop_last() =~= subsections);
    let k = functions.len() as int;
    assert((functions + behind).take(k) =~= functions);
    if let Outcome::Next(start) = name_section(module, config, subsections) {
        if !(fold(start, functions, locals_of_functions()) is Next) {
            entries_after_the_end_are_ignored(start, functions + behind, k, locals_of_functions());
        }
    }
}

/// The name section never ends a translation: the module has the names that came
/// before an error, and the error is one more warning. Nothing else changes.
pub proof fn an_error_among_names_is_a_warning(
    env: EnvView,
    config: WasmTranslationConfig,
    memory64: bool,
    subsections: Seq<Result<NameSubsectionView, ReadErrorView>>,
)
    ensures
        ({
            let outcome = payload_step(
                env,
                config,
                memory64,
                PayloadView::NameSection(subsections),
            );
            match name_section(env.result.module, config, subsections) {
                Outcome::Next(module) => outcome == (Outcome::Next(
                    EnvView { result: TranslationView { module, ..env.result }, ..env },
                )),
                Outcome::Fails(module, error) => outcome == (Outcome::Next(
                    EnvView {
                        result: TranslationView { module, ..env.result },
                        warnings: env.warnings.push(WarningView::NameSection(error)),
                        ..env
                    },
                )),
                Outcome::Halts => false,
            }
        }),
{
    name_section_changes_only_names(env.result.module, config, subsections);
}

} // verus!

//! What holds of a translation at every step.
use vstd::prelude::*;

use super::debuginfo::WasmTranslationConfig;
use super::elements::{
    element_section, element_step, element_steps, expression_elements, function_element,
    function_elements, with_elements, with_segment, Elements, Segments,
};
use super::error::{lemma_fold_keeps, outcome_keeps, Outcome, ReadErrorView};
use super::exported::is_exported;
use super::index::{index_fits, FuncIndex, SignatureIndex};
use super::module::{
    exporting_sets_one_name, lemma_number_left, lemma_with_escaped_wf, lemma_with_function_wf,
    with_escaped, with_export, with_function, EntityIndex, InitialValueView, ModuleType, ModuleView,
};
use super::module_env::{
    payload_step, readable, run, run_step, run_steps, type_step, type_steps, EnvView, RunView,
};
use super::names::{
    function_names, global_names, local_names, locals_of_function, locals_of_functions,
    name_section, name_section_changes_only_names, subsection_steps, with_names,
};
use super::parser::{declared_types, payloads, validation};
use super::payload::{
    CompositeView, ConstOp, ConstOperatorView, DeclaredTypeView, ElementListView, ElementView,
    ExportView, GlobalEntryView, ImportKind, ImportView, LocalNamesView, NameSubsectionView,
    PayloadView, TableEntryView,
};
use super::raw::{ContentView, RawView, ValidatorView, WasmFeatures};
use super::reader::{complete, custom_payload};
use super::sections::{
    data_steps, export_step, export_steps, function_step, function_steps, global_step, global_steps,
    import_step, import_steps, memory_steps, start_section, table_step, table_steps, with_module,
};
use super::translation::TranslationView;
use super::types::{interning_keeps_numbers, FuncTypeView};
use super::warning::WarningView;

verus! {

/// Whether the module has this function, and the function escapes.
pub open spec fn func_escapes(module: ModuleView, func: FuncIndex) -> bool {
    func.0 < module.functions.len() && module.functions[func.0 as int].escapes()
}

/// Whether the elements of a segment are functions that escape, or null.
pub open spec fn elements_escape(module: ModuleView, elements: Seq<FuncIndex>) -> bool {
    forall|i: int|
        0 <= i < elements.len() ==> (#[trigger] elements[i]) == FuncIndex::reserved()
            || func_escapes(module, elements[i])
}

/// Whether every function that the module exports, starts with, or puts in a
/// table escapes.
pub open spec fn references_escape(module: ModuleView) -> bool {
    &&& forall|i: int|
        0 <= i < module.exports.len() ==> ((#[trigger] module.exports[i]).1
            matches EntityIndex::Function(func) ==> func_escapes(module, func))
    &&& module.start_func matches Some(func) ==> func_escapes(module, func)
    &&& forall|i: int|
        0 <= i < module.initial_values.len() ==> (#[trigger] module.initial_values[i]
            matches InitialValueView::FuncRef(func) ==> func_escapes(module, func))
    &&& forall|i: int|
        0 <= i < module.segments.len() ==> elements_escape(
            module,
            (#[trigger] module.segments[i]).elements,
        )
    &&& forall|i: int|
        0 <= i < module.passive_elements.len() ==> elements_escape(
            module,
            #[trigger] module.passive_elements[i],
        )
}

/// Whether the signatures of the types and of the functions are among the
/// first `n` interned ones.
pub open spec fn signatures_are_known(module: ModuleView, n: nat) -> bool {
    &&& forall|i: int|
        0 <= i < module.types.len() ==> (#[trigger] module.types[i] matches ModuleType::Function(
            signature,
        ) && signature.0 < n)
    &&& forall|i: int|
        0 <= i < module.functions.len() ==> (#[trigger] module.functions[i]).signature.0 < n
}

/// Whether there is an initializer for each import, and no memory is imported.
pub open spec fn imports_are_counted(module: ModuleView) -> bool {
    &&& module.num_imported_memories == 0
    &&& module.initializers.len() == module.num_imported_funcs + module.num_imported_tables
        + module.num_imported_globals
}

/// Whether the elements of each passive segment are found.
pub open spec fn passive_segments_are_found(module: ModuleView) -> bool {
    forall|n: u32| #[trigger]
        module.passive_elements_map.contains_key(n) ==> module.passive_elements_map[n]
            < module.passive_elements.len()
}

/// Whether each function body is described if debug information is generated,
/// and none is otherwise.
pub open spec fn bodies_are_described(t: TranslationView, config: WasmTranslationConfig) -> bool {
    t.wasm_file.funcs.len() == if config.generate_native_debuginfo {
        t.bodies.len()
    } else {
        0
    }
}

/// What holds of a translation at every step, when `n` signatures are interned.
pub open spec fn is_sound(t: TranslationView, n: nat, config: WasmTranslationConfig) -> bool {
    &&& t.wf()
    &&& references_escape(t.module)
    &&& signatures_are_known(t.module, n)
    &&& imports_are_counted(t.module)
    &&& passive_segments_are_found(t.module)
    &&& bodies_are_described(t, config)
}

/// [`is_sound`], as a property of translations.
pub open spec fn soundness(n: nat, config: WasmTranslationConfig) -> spec_fn(
    TranslationView,
) -> bool {
    |t: TranslationView| is_sound(t, n, config)
}

/// Letting a function escape keeps a translation sound, and the function
/// escapes then.
proof fn lemma_escape(t: TranslationView, n: nat, config: WasmTranslationConfig, func: FuncIndex)
    requires
        is_sound(t, n, config),
        func.0 < t.module.functions.len(),
    ensures
        is_sound(with_module(t, with_escaped(t.module, func)), n, config),
        func_escapes(with_escaped(t.module, func), func),
        forall|f: FuncIndex|
            func_escapes(t.module, f) ==> #[trigger] func_escapes(with_escaped(t.module, func), f),
{
    let after = with_escaped(t.module, func);
    lemma_with_escaped_wf(t.module, func);
    if !t.module.functions[func.0 as int].escapes() {
        lemma_number_left(t.module, func);
    }
    assert forall|f: FuncIndex| func_escapes(t.module, f) implies #[trigger] func_escapes(
        after,
        f,
    ) by {
        if f != func {
            assert(after.functions[f.0 as int] == t.module.functions[f.0 as int]);
        }
    }
    assert forall|i: int| 0 <= i < after.segments.len() implies elements_escape(
        after,
        (#[trigger] after.segments[i]).elements,
    ) by {
        assert(elements_escape(t.module, t.module.segments[i].elements));
    }
    assert forall|i: int| 0 <= i < after.passive_elements.len() implies elements_escape(
        after,
        #[trigger] after.passive_elements[i],
    ) by {
        assert(elements_escape(t.module, t.module.passive_elements[i]));
    }
}

/// Functions that are not touched escape as before.
proof fn lemma_same_references(before: ModuleView, after: ModuleView)
    requires
        references_escape(before),
        before.functions.len() <= after.functions.len(),
        forall|i: int|
            0 <= i < before.functions.len() ==> #[trigger] after.functions[i]
                == before.functions[i],
        after.exports == before.exports,
        after.start_func == before.start_func,
        after.initial_values == before.initial_values,
        after.segments == before.segments,
        after.passive_elements == before.passive_elements,
    ensures
        references_escape(after),
{
    assert forall|f: FuncIndex| func_escapes(before, f) implies #[trigger] func_escapes(
        after,
        f,
    ) by {
        assert(after.functions[f.0 as int] == before.functions[f.0 as int]);
    }
    assert forall|i: int| 0 <= i < after.segments.len() implies elements_escape(
        after,
        (#[trigger] after.segments[i]).elements,
    ) by {
        assert(elements_escape(before, before.segments[i].elements));
    }
    assert forall|i: int| 0 <= i < after.passive_elements.len() implies elements_escape(
        after,
        #[trigger] after.passive_elements[i],
    ) by {
        assert(elements_escape(before, before.passive_elements[i]));
    }
}

/// A function that is added keeps a translation sound.
proof fn lemma_function(
    t: TranslationView,
    n: nat,
    config: WasmTranslationConfig,
    signature: SignatureIndex,
)
    requires
        is_sound(t, n, config),
        signature.0 < n,
        index_fits(t.module.functions.len()),
    ensures
        is_sound(with_module(t, with_function(t.module, signature)), n, config),
{
    lemma_with_function_wf(t.module, signature);
    lemma_same_references(t.module, with_function(t.module, signature));
}

/// An import keeps a translation sound.
proof fn lemma_import(
    t: TranslationView,
    n: nat,
    config: WasmTranslationConfig,
    import: ImportView,
)
    requires
        is_sound(t, n, config),
    ensures
        outcome_keeps(import_step(t, import), soundness(n, config)),
{
    if let Outcome::Next(after) = import_step(t, import) {
        if let ImportKind::Func(ty) = import.ty {
            if let ModuleType::Function(signature) = t.module.types[ty as int] {
                assert(signature.0 < n);
                lemma_function(t, n, config, signature);
            }
        }
        assert(references_escape(after.module)) by {
            lemma_same_references(t.module, after.module);
        }
        assert(is_sound(after, n, config));
    }
}

/// A function of the module keeps a translation sound.
proof fn lemma_function_step(t: TranslationView, n: nat, config: WasmTranslationConfig, ty: u32)
    requires
        is_sound(t, n, config),
    ensures
        outcome_keeps(function_step(t, ty), soundness(n, config)),
{
    if let Outcome::Next(after) = function_step(t, ty) {
        if let ModuleType::Function(signature) = t.module.types[ty as int] {
            assert(signature.0 < n);
            lemma_function(t, n, config, signature);
        }
    }
}

/// A table keeps a translation sound.
proof fn lemma_table(
    t: TranslationView,
    n: nat,
    config: WasmTranslationConfig,
    table: TableEntryView,
)
    requires
        is_sound(t, n, config),
    ensures
        outcome_keeps(table_step(t, table), soundness(n, config)),
{
    if index_fits(t.module.tables.len()) {
        let declared = with_module(
            t,
            ModuleView { tables: t.module.tables.push(table.ty), ..t.module },
        );
        lemma_same_references(t.module, declared.module);
        assert(is_sound(declared, n, config));
        if let Some(Ok(init)) = table.init {
            if let ConstOp::RefFunc(func) = init.op {
                if func < t.module.functions.len() {
                    lemma_escape(declared, n, config, FuncIndex(func));
                }
            }
        }
        if let Outcome::Next(after) = table_step(t, table) {
            let before = ModuleView {
                initial_values: after.module.initial_values.drop_last(),
                ..after.module
            };
            assert(before.initial_values =~= t.module.initial_values);
            assert(references_escape(before));
            lemma_same_rest(before, after.module);
            assert(references_escape(after.module));
            assert(is_sound(after, n, config));
        }
    }
}

/// A global keeps a translation sound.
proof fn lemma_global(
    t: TranslationView,
    n: nat,
    config: WasmTranslationConfig,
    global: GlobalEntryView,
)
    requires
        is_sound(t, n, config),
    ensures
        outcome_keeps(global_step(t, global), soundness(n, config)),
{
    if let Outcome::Next(after) = global_step(t, global) {
        lemma_same_references(t.module, after.module);
        assert(is_sound(after, n, config));
    }
}

/// An export keeps a translation sound.
proof fn lemma_export(
    t: TranslationView,
    n: nat,
    config: WasmTranslationConfig,
    export: ExportView,
)
    requires
        is_sound(t, n, config),
    ensures
        outcome_keeps(export_step(t, export), soundness(n, config)),
{
    if let Outcome::Next(after) = export_step(t, export) {
        let func = FuncIndex(export.index);
        let exports_func = export.kind is Func;
        if exports_func {
            lemma_escape(t, n, config, func);
        }
        let before = if exports_func {
            with_escaped(t.module, func)
        } else {
            t.module
        };
        assert(references_escape(before));
        let entity = choose|entity: EntityIndex|
            after.module.exports == with_export(before.exports, export.name, entity) && (entity
                matches EntityIndex::Function(f) ==> exports_func && f == func);
        exporting_sets_one_name(before.exports, export.name, entity);
        let exports = after.module.exports;
        assert forall|i: int| 0 <= i < exports.len() implies ((#[trigger] exports[i]).1
            matches EntityIndex::Function(f) ==> func_escapes(after.module, f)) by {
            let other = exports[i];
            assert(exports.contains(other));
            if other.0 == export.name {
                let j = choose|j: int|
                    0 <= j < exports.len() && exports[j] == (export.name, entity);
                assert(i == j);
            } else {
                assert(before.exports.contains(other));
                let j = choose|j: int| 0 <= j < before.exports.len() && before.exports[j] == other;
                assert(before.exports[j] == other);
            }
        }
        lemma_same_rest(before, after.module);
        assert(is_sound(after, n, config));
    }
}

/// Where the functions stay, the same functions escape.
proof fn lemma_same_rest(before: ModuleView, after: ModuleView)
    requires
        after.functions == before.functions,
    ensures
        forall|f: FuncIndex| #[trigger] func_escapes(after, f) == func_escapes(before, f),
        forall|elements: Seq<FuncIndex>| #[trigger]
            elements_escape(after, elements) == elements_escape(before, elements),
{
    assert forall|elements: Seq<FuncIndex>| #[trigger]
        elements_escape(after, elements) == elements_escape(before, elements) by {
        if elements_escape(before, elements) {
            assert(elements_escape(after, elements));
        }
        if elements_escape(after, elements) {
            assert(elements_escape(before, elements));
        }
    }
}

/// The start function keeps a translation sound.
proof fn lemma_start(t: TranslationView, n: nat, config: WasmTranslationConfig, func: u32)
    requires
        is_sound(t, n, config),
    ensures
        outcome_keeps(start_section(t, func), soundness(n, config)),
{
    if let Outcome::Next(after) = start_section(t, func) {
        lemma_escape(t, n, config, FuncIndex(func));
        lemma_same_rest(with_escaped(t.module, FuncIndex(func)), after.module);
        assert(is_sound(after, n, config));
    }
}

/// [`is_sound`], with elements that escape, as a property.
spec fn sound_elements(n: nat, config: WasmTranslationConfig) -> spec_fn(Elements) -> bool {
    |state: Elements| is_sound(state.0, n, config) && elements_escape(state.0.module, state.1)
}

/// An element that is a function keeps a translation sound.
proof fn lemma_function_element(
    state: Elements,
    n: nat,
    config: WasmTranslationConfig,
    func: u32,
)
    requires
        sound_elements(n, config)(state),
    ensures
        outcome_keeps(function_element(state, func), sound_elements(n, config)),
{
    if let Outcome::Next(after) = function_element(state, func) {
        lemma_escape(state.0, n, config, FuncIndex(func));
        assert(elements_escape(after.0.module, after.1));
    }
}

/// The elements of a segment keep a translation sound.
proof fn lemma_elements(
    t: TranslationView,
    n: nat,
    config: WasmTranslationConfig,
    items: ElementListView,
)
    requires
        is_sound(t, n, config),
    ensures
        outcome_keeps(with_elements(t, items), sound_elements(n, config)),
{
    let keeps = sound_elements(n, config);
    let start: Elements = (t, Seq::empty());
    match items {
        ElementListView::Functions(functions) => {
            assert forall|state: Elements, func: u32| keeps(state) implies outcome_keeps(
                #[trigger] function_elements()(state, func),
                keeps,
            ) by {
                lemma_function_element(state, n, config, func);
            }
            lemma_fold_keeps(start, functions, function_elements(), keeps);
        },
        ElementListView::Expressions(expressions) => {
            assert forall|state: Elements, expression: ConstOperatorView|
                keeps(state) implies outcome_keeps(
                #[trigger] expression_elements()(state, expression),
                keeps,
            ) by {
                if let ConstOp::RefFunc(func) = expression.op {
                    lemma_function_element(state, n, config, func);
                }
            }
            lemma_fold_keeps(start, expressions, expression_elements(), keeps);
        },
    }
}

/// A segment keeps a translation sound.
proof fn lemma_element(
    t: TranslationView,
    number: nat,
    n: nat,
    config: WasmTranslationConfig,
    segment: ElementView,
)
    requires
        is_sound(t, n, config),
    ensures
        outcome_keeps(
            element_step((t, number), segment),
            |state: Segments| is_sound(state.0, n, config),
        ),
{
    lemma_elements(t, n, config, segment.items);
    if let Outcome::Next((listed, elements)) = with_elements(t, segment.items) {
        if let Outcome::Next(after) = with_segment(listed, number, segment.place, elements) {
            lemma_same_rest(listed.module, after.module);
            assert(elements_escape(after.module, elements));
            assert(references_escape(after.module));
            assert(is_sound(after, n, config));
        }
    }
}

/// The element section keeps a translation sound.
proof fn lemma_element_section(
    t: TranslationView,
    n: nat,
    config: WasmTranslationConfig,
    entries: Seq<Result<ElementView, ReadErrorView>>,
)
    requires
        is_sound(t, n, config),
    ensures
        outcome_keeps(element_section(t, entries), soundness(n, config)),
{
    let keeps = |state: Segments| is_sound(state.0, n, config);
    assert forall|state: Segments, segment: ElementView| keeps(state) implies outcome_keeps(
        #[trigger] element_steps()(state, segment),
        keeps,
    ) by {
        lemma_element(state.0, state.1, n, config, segment);
    }
    lemma_fold_keeps((t, 0nat), entries, element_steps(), keeps);
}

/// Whether the names of functions and of their locals are of functions that
/// exist, and no global with the reserved number has a name.
pub open spec fn names_are_of_entities(module: ModuleView) -> bool {
    &&& forall|f: u32| #[trigger]
        module.names.func_names.contains_key(f) ==> f < module.functions.len()
    &&& forall|f: u32| #[trigger]
        module.names.locals_names.contains_key(f) ==> f < module.functions.len()
    &&& !module.names.globals_names.contains_key(u32::MAX)
}

/// However the section with the names reads, and wherever an error ends it,
/// functions that do not exist get no name, nor does the reserved global.
pub proof fn name_section_names_what_exists(
    module: ModuleView,
    config: WasmTranslationConfig,
    subsections: Seq<Result<NameSubsectionView, ReadErrorView>>,
)
    requires
        names_are_of_entities(module),
    ensures
        outcome_keeps(
            name_section(module, config, subsections),
            |after: ModuleView| names_are_of_entities(after),
        ),
{
    let keeps = |after: ModuleView| names_are_of_entities(after);
    let steps = subsection_steps(config);
    assert forall|state: ModuleView, subsection: NameSubsectionView|
        keeps(state) implies outcome_keeps(#[trigger] steps(state, subsection), keeps) by {
        match subsection {
            NameSubsectionView::Function(names) => {
                lemma_fold_keeps(state, names, function_names(), keeps);
            },
            NameSubsectionView::Local(functions) => {
                assert forall|state: ModuleView, locals: LocalNamesView|
                    keeps(state) implies outcome_keeps(
                    #[trigger] locals_of_functions()(state, locals),
                    keeps,
                ) by {
                    lemma_locals_of_function(state, locals);
                }
                lemma_fold_keeps(state, functions, locals_of_functions(), keeps);
            },
            NameSubsectionView::Global(names) => {
                lemma_fold_keeps(state, names, global_names(), keeps);
            },
            _ => {},
        }
    }
    lemma_fold_keeps(module, subsections, steps, keeps);
}

/// The names of the locals of a function keep names of functions that exist.
proof fn lemma_locals_of_function(module: ModuleView, locals: LocalNamesView)
    requires
        names_are_of_entities(module),
    ensures
        outcome_keeps(
            locals_of_function(module, locals),
            |after: ModuleView| names_are_of_entities(after),
        ),
{
    if locals.index < module.functions.len() {
        let keeps = |after: ModuleView|
            names_are_of_entities(after) && locals.index < after.functions.len();
        lemma_fold_keeps(module, locals.names, local_names(locals.index), keeps);
    }
}

/// The section with the names keeps a translation sound.
proof fn lemma_name_section(
    t: TranslationView,
    n: nat,
    config: WasmTranslationConfig,
    subsections: Seq<Result<NameSubsectionView, ReadErrorView>>,
)
    requires
        is_sound(t, n, config),
    ensures
        outcome_keeps(
            name_section(t.module, config, subsections),
            |module: ModuleView| is_sound(with_module(t, module), n, config),
        ),
{
    name_section_changes_only_names(t.module, config, subsections);
    name_section_names_what_exists(t.module, config, subsections);
    match name_section(t.module, config, subsections) {
        Outcome::Next(module) => lemma_names_keep(t, n, config, module),
        Outcome::Fails(module, _) => lemma_names_keep(t, n, config, module),
        Outcome::Halts => {},
    }
}

/// Other names keep a translation sound.
proof fn lemma_names_keep(
    t: TranslationView,
    n: nat,
    config: WasmTranslationConfig,
    module: ModuleView,
)
    requires
        is_sound(t, n, config),
        module == with_names(t.module, module.names),
        names_are_of_entities(module),
    ensures
        is_sound(with_module(t, module), n, config),
{
    lemma_same_rest(t.module, module);
}

/// Whether an environment is as it should be: no signature is interned twice,
/// and the translation is sound.
pub open spec fn env_is_sound(env: EnvView, config: WasmTranslationConfig) -> bool {
    &&& env.wf()
    &&& is_sound(env.result, env.signatures.len(), config)
}

/// A type keeps an environment sound.
proof fn lemma_type(env: EnvView, config: WasmTranslationConfig, ty: Option<DeclaredTypeView>)
    requires
        env_is_sound(env, config),
    ensures
        outcome_keeps(type_step(env, ty), |after: EnvView| env_is_sound(after, config)),
{
    if let Outcome::Next(after) = type_step(env, ty) {
        if let CompositeView::Func(signature) = ty->Some_0.composite {
            interning_keeps_numbers(env.signatures, signature);
        }
        lemma_same_references(env.result.module, after.result.module);
        assert(env_is_sound(after, config));
    }
}

/// An environment that was just made is sound.
pub proof fn a_new_environment_is_sound(
    signatures: Seq<FuncTypeView>,
    warnings: Seq<WarningView>,
    config: WasmTranslationConfig,
)
    requires
        signatures.no_duplicates(),
    ensures
        env_is_sound(EnvView::fresh(signatures, warnings), config),
{
}

/// Whatever payload comes, and whether or not it ends the translation, an
/// environment that is sound stays sound: entities have numbers, functions
/// that escape are numbered, what the module refers to escapes, signatures are
/// known, imports are counted, passive segments are found, and function bodies
/// are described.
pub proof fn every_payload_keeps_the_environment_sound(
    env: EnvView,
    config: WasmTranslationConfig,
    memory64: bool,
    payload: PayloadView,
)
    requires
        env_is_sound(env, config),
    ensures
        outcome_keeps(
            payload_step(env, config, memory64, payload),
            |after: EnvView| env_is_sound(after, config),
        ),
{
    let t = env.result;
    let n = env.signatures.len();
    let keeps = soundness(n, config);
    match payload {
        PayloadView::TypeSection(types) => {
            let sound = |after: EnvView| env_is_sound(after, config);
            assert forall|state: EnvView, ty: Option<DeclaredTypeView>|
                sound(state) implies outcome_keeps(#[trigger] type_steps()(state, ty), sound) by {
                lemma_type(state, config, ty);
            }
            lemma_fold_keeps(env, readable(types), type_steps(), sound);
        },
        PayloadView::ImportSection(entries) => {
            assert forall|state: TranslationView, import: ImportView|
                keeps(state) implies outcome_keeps(
                #[trigger] import_steps()(state, import),
                keeps,
            ) by {
                lemma_import(state, n, config, import);
            }
            lemma_fold_keeps(t, entries, import_steps(), keeps);
        },
        PayloadView::FunctionSection(entries) => {
            assert forall|state: TranslationView, ty: u32| keeps(state) implies outcome_keeps(
                #[trigger] function_steps()(state, ty),
                keeps,
            ) by {
                lemma_function_step(state, n, config, ty);
            }
            lemma_fold_keeps(t, entries, function_steps(), keeps);
        },
        PayloadView::TableSection(entries) => {
            assert forall|state: TranslationView, table: TableEntryView|
                keeps(state) implies outcome_keeps(
                #[trigger] table_steps()(state, table),
                keeps,
            ) by {
                lemma_table(state, n, config, table);
            }
            lemma_fold_keeps(t, entries, table_steps(), keeps);
        },
        PayloadView::MemorySection(entries) => {
            lemma_fold_keeps(t, entries, memory_steps(), keeps);
        },
        PayloadView::GlobalSection(entries) => {
            assert forall|state: TranslationView, global: GlobalEntryView|
                keeps(state) implies outcome_keeps(
                #[trigger] global_steps()(state, global),
                keeps,
            ) by {
                lemma_global(state, n, config, global);
            }
            lemma_fold_keeps(t, entries, global_steps(), keeps);
        },
        PayloadView::ExportSection(entries) => {
            assert forall|state: TranslationView, export: ExportView|
                keeps(state) implies outcome_keeps(
                #[trigger] export_steps()(state, export),
                keeps,
            ) by {
                lemma_export(state, n, config, export);
            }
            lemma_fold_keeps(t, entries, export_steps(), keeps);
        },
        PayloadView::StartSection { func } => {
            lemma_start(t, n, config, func);
        },
        PayloadView::ElementSection(entries) => {
            lemma_element_section(t, n, config, entries);
        },
        PayloadView::NameSection(subsections) => {
            lemma_name_section(t, n, config, subsections);
        },
        PayloadView::DataSection(entries) => {
            lemma_fold_keeps(t, entries, data_steps(), keeps);
        },
        _ => {},
    }
}

/// Whatever a module holds, and however its translation ends, an environment
/// that is sound stays sound.
pub proof fn every_module_keeps_the_environment_sound(
    env: EnvView,
    config: WasmTranslationConfig,
    features: WasmFeatures,
    offset: u64,
    data: Seq<u8>,
)
    requires
        env_is_sound(env, config),
    ensures
        outcome_keeps(
            run(env, config, features, offset, data),
            |state: RunView| env_is_sound(state.env, config),
        ),
{
    let keeps = |state: RunView| env_is_sound(state.env, config);
    let steps = run_steps(config, features);
    assert forall|state: RunView, raw: RawView| keeps(state) implies outcome_keeps(
        #[trigger] steps(state, raw),
        keeps,
    ) by {
        lemma_run_step(state, config, features, raw);
    }
    lemma_fold_keeps(
        RunView { env, accepted: Seq::empty() },
        payloads(offset, data),
        steps,
        keeps,
    );
}

/// A payload of the input keeps an environment sound.
proof fn lemma_run_step(
    state: RunView,
    config: WasmTranslationConfig,
    features: WasmFeatures,
    raw: RawView,
)
    requires
        env_is_sound(state.env, config),
    ensures
        outcome_keeps(
            run_step(state, config, features, raw),
            |after: RunView| env_is_sound(after.env, config),
        ),
{
    if let ContentView::CustomSection { name, data, offset } = raw.content {
        every_payload_keeps_the_environment_sound(
            state.env,
            config,
            features.memory64,
            custom_payload(name, data, offset),
        );
    } else {
        let validator = ValidatorView { features, accepted: state.accepted };
        if let Ok(valid) = validation(validator, raw) {
            let accepted = state.accepted.push(raw);
            let declared = declared_types(
                ValidatorView { features, accepted },
            );
            every_payload_keeps_the_environment_sound(
                state.env,
                config,
                features.memory64,
                complete(raw.content, valid, declared),
            );
        }
    }
}

/// A function that a complete translation exports can be called from outside:
/// its signature is among the exported ones.
pub proof fn exported_functions_have_exported_signatures(
    t: TranslationView,
    export: int,
    func: FuncIndex,
)
    requires
        references_escape(t.module),
        t.is_complete(),
        0 <= export < t.module.exports.len(),
        t.module.exports[export].1 == EntityIndex::Function(func),
    ensures
        func.0 < t.module.functions.len(),
        t.exported_signatures.contains(t.module.functions[func.0 as int].signature),
{
    let signature = t.module.functions[func.0 as int].signature;
    assert(func_escapes(t.module, func));
    assert(is_exported(t.module.functions, signature));
}

} // verus!

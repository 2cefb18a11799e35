//! What the entries of the sections that declare entities add to a module.
//!
//! Each of these laws compares a section with the same section and one more
//! entry.
use vstd::prelude::*;

use super::debuginfo::{WasmFileView, WasmTranslationConfig};
use super::elements::element_steps;
use super::error::{
    entries_after_the_end_are_ignored, fold, lemma_fold_push, ErrorView, Outcome, ReadErrorView,
};
use super::index::{FuncIndex, FuncRefIndex, GlobalIndex, MemoryIndex, TableIndex};
use super::module::{
    exporting_sets_one_name, lemma_number_left, lemma_with_export_place, names_are_distinct,
    EntityIndex, FunctionType, GlobalInit, InitialValueView, InitializerView, ModuleType,
    ModuleView,
};
use super::module_env::{payload_step, readable, EnvView};
use super::payload::{
    ConstOp, Encoding, ExportKind, ExportView, GlobalEntryView, ImportKind, ImportView, PayloadView,
    TableEntryView,
};
use super::sections::{
    data_steps, export_section, export_step, export_steps, function_section, function_step,
    function_steps, global_steps, import_section, import_step, import_steps, memory_steps,
    table_steps,
};
use super::translation::TranslationView;
use super::types::MemoryPlan;

verus! {

/// Whether `after` differs from `before` in that the function with the number
/// `func` escapes, if it did not: signatures stay, no other function begins or
/// ceases to escape, and a function that begins to gets the next number.
pub open spec fn lets_escape(before: ModuleView, after: ModuleView, func: u32) -> bool {
    &&& after.functions.len() == before.functions.len()
    &&& forall|i: int|
        0 <= i < before.functions.len() ==> (#[trigger] after.functions[i]).signature
            == before.functions[i].signature
    &&& forall|i: int|
        0 <= i < before.functions.len() && i != func ==> (#[trigger] after.functions[i]).func_ref
            == before.functions[i].func_ref
    &&& after.functions[func as int].func_ref.0 != u32::MAX
    &&& if before.functions[func as int].func_ref.0 != u32::MAX {
        &&& after.functions[func as int].func_ref == before.functions[func as int].func_ref
        &&& after.num_escaped_funcs == before.num_escaped_funcs
    } else {
        &&& after.functions[func as int].func_ref.0 == before.num_escaped_funcs
        &&& after.num_escaped_funcs == before.num_escaped_funcs + 1
    }
}

/// `payload`, with an entry behind its entries that could not be read.
pub open spec fn followed_by_error(payload: PayloadView, error: ReadErrorView) -> PayloadView {
    match payload {
        PayloadView::ImportSection(entries) => PayloadView::ImportSection(entries.push(Err(error))),
        PayloadView::FunctionSection(entries) => PayloadView::FunctionSection(
            entries.push(Err(error)),
        ),
        PayloadView::TableSection(entries) => PayloadView::TableSection(entries.push(Err(error))),
        PayloadView::MemorySection(entries) => PayloadView::MemorySection(entries.push(Err(error))),
        PayloadView::GlobalSection(entries) => PayloadView::GlobalSection(entries.push(Err(error))),
        PayloadView::ExportSection(entries) => PayloadView::ExportSection(entries.push(Err(error))),
        PayloadView::ElementSection(entries) => PayloadView::ElementSection(
            entries.push(Err(error)),
        ),
        PayloadView::DataSection(entries) => PayloadView::DataSection(entries.push(Err(error))),
        other => other,
    }
}

/// Whether the payload is a section whose entries are read one after the other.
pub open spec fn is_list(payload: PayloadView) -> bool {
    ||| payload is ImportSection
    ||| payload is FunctionSection
    ||| payload is TableSection
    ||| payload is MemorySection
    ||| payload is GlobalSection
    ||| payload is ExportSection
    ||| payload is ElementSection
    ||| payload is DataSection
}

/// Whether `longer` is the section `payload` with more entries.
pub open spec fn is_prefix(payload: PayloadView, longer: PayloadView) -> bool {
    match (payload, longer) {
        (PayloadView::ImportSection(a), PayloadView::ImportSection(b)) => a.is_prefix_of(b),
        (PayloadView::FunctionSection(a), PayloadView::FunctionSection(b)) => a.is_prefix_of(b),
        (PayloadView::TableSection(a), PayloadView::TableSection(b)) => a.is_prefix_of(b),
        (PayloadView::MemorySection(a), PayloadView::MemorySection(b)) => a.is_prefix_of(b),
        (PayloadView::GlobalSection(a), PayloadView::GlobalSection(b)) => a.is_prefix_of(b),
        (PayloadView::ExportSection(a), PayloadView::ExportSection(b)) => a.is_prefix_of(b),
        (PayloadView::ElementSection(a), PayloadView::ElementSection(b)) => a.is_prefix_of(b),
        (PayloadView::DataSection(a), PayloadView::DataSection(b)) => a.is_prefix_of(b),
        _ => false,
    }
}

/// An entry that cannot be read ends the translation, whatever section it is in,
/// with what was wrong and where; what the entries before it came to stays.
pub proof fn an_entry_that_cannot_be_read_is_an_error(
    env: EnvView,
    config: WasmTranslationConfig,
    memory64: bool,
    payload: PayloadView,
    error: ReadErrorView,
    before: EnvView,
)
    requires
        is_list(payload),
        payload_step(env, config, memory64, payload) == Outcome::Next(before),
    ensures
        payload_step(env, config, memory64, followed_by_error(payload, error)) == (Outcome::Fails(
            before,
            ErrorView::InvalidWebAssembly { message: error.message, offset: error.offset },
        )),
{
    let t = env.result;
    let state = before.result;
    match payload {
        PayloadView::ImportSection(entries) => {
            lemma_fold_push(t, entries, Err(error), import_steps(), state);
        },
        PayloadView::FunctionSection(entries) => {
            lemma_fold_push(t, entries, Err(error), function_steps(), state);
        },
        PayloadView::TableSection(entries) => {
            lemma_fold_push(t, entries, Err(error), table_steps(), state);
        },
        PayloadView::MemorySection(entries) => {
            lemma_fold_push(t, entries, Err(error), memory_steps(), state);
        },
        PayloadView::GlobalSection(entries) => {
            lemma_fold_push(t, entries, Err(error), global_steps(), state);
        },
        PayloadView::ExportSection(entries) => {
            lemma_fold_push(t, entries, Err(error), export_steps(), state);
        },
        PayloadView::ElementSection(entries) => {
            let n = fold((t, 0nat), entries, element_steps())->Next_0.1;
            lemma_fold_push((t, 0nat), entries, Err(error), element_steps(), (state, n));
        },
        PayloadView::DataSection(entries) => {
            lemma_fold_push(t, entries, Err(error), data_steps(), state);
        },
        _ => {},
    }
}

/// Once an entry has ended the translation, the entries behind it change
/// nothing.
pub proof fn entries_behind_an_error_change_nothing(
    env: EnvView,
    config: WasmTranslationConfig,
    memory64: bool,
    payload: PayloadView,
    longer: PayloadView,
)
    requires
        is_prefix(payload, longer),
        !(payload_step(env, config, memory64, payload) is Next),
    ensures
        payload_step(env, config, memory64, longer) == payload_step(env, config, memory64, payload),
{
    let t = env.result;
    match (payload, longer) {
        (PayloadView::ImportSection(a), PayloadView::ImportSection(b)) => {
            assert(b.take(a.len() as int) =~= a);
            entries_after_the_end_are_ignored(t, b, a.len() as int, import_steps());
        },
        (PayloadView::FunctionSection(a), PayloadView::FunctionSection(b)) => {
            assert(b.take(a.len() as int) =~= a);
            entries_after_the_end_are_ignored(t, b, a.len() as int, function_steps());
        },
        (PayloadView::TableSection(a), PayloadView::TableSection(b)) => {
            assert(b.take(a.len() as int) =~= a);
            entries_after_the_end_are_ignored(t, b, a.len() as int, table_steps());
        },
        (PayloadView::MemorySection(a), PayloadView::MemorySection(b)) => {
            assert(b.take(a.len() as int) =~= a);
            entries_after_the_end_are_ignored(t, b, a.len() as int, memory_steps());
        },
        (PayloadView::GlobalSection(a), PayloadView::GlobalSection(b)) => {
            assert(b.take(a.len() as int) =~= a);
            entries_after_the_end_are_ignored(t, b, a.len() as int, global_steps());
        },
        (PayloadView::ExportSection(a), PayloadView::ExportSection(b)) => {
            assert(b.take(a.len() as int) =~= a);
            entries_after_the_end_are_ignored(t, b, a.len() as int, export_steps());
        },
        (PayloadView::ElementSection(a), PayloadView::ElementSection(b)) => {
            assert(b.take(a.len() as int) =~= a);
            entries_after_the_end_are_ignored((t, 0nat), b, a.len() as int, element_steps());
        },
        (PayloadView::DataSection(a), PayloadView::DataSection(b)) => {
            assert(b.take(a.len() as int) =~= a);
            entries_after_the_end_are_ignored(t, b, a.len() as int, data_steps());
        },
        _ => {},
    }
}

/// A section without entries changes nothing, nor do the header of a module, a
/// number of data segments, or memories.
pub proof fn what_declares_nothing_changes_nothing(
    env: EnvView,
    config: WasmTranslationConfig,
    memory64: bool,
    memories: Seq<Result<MemoryPlan, ReadErrorView>>,
)
    requires
        forall|i: int| 0 <= i < memories.len() ==> #[trigger] memories[i] is Ok,
    ensures
        payload_step(
            env,
            config,
            memory64,
            PayloadView::Version { encoding: Encoding::Module },
        ) == Outcome::Next(env),
        payload_step(env, config, memory64, PayloadView::DataCountSection) == Outcome::Next(env),
        payload_step(env, config, memory64, PayloadView::MemorySection(memories))
            == Outcome::Next(env),
        payload_step(env, config, memory64, PayloadView::TypeSection(Seq::empty()))
            == Outcome::Next(env),
        payload_step(env, config, memory64, PayloadView::ImportSection(Seq::empty()))
            == Outcome::Next(env),
        payload_step(env, config, memory64, PayloadView::FunctionSection(Seq::empty()))
            == Outcome::Next(env),
        payload_step(env, config, memory64, PayloadView::TableSection(Seq::empty()))
            == Outcome::Next(env),
        payload_step(env, config, memory64, PayloadView::GlobalSection(Seq::empty()))
            == Outcome::Next(env),
        payload_step(env, config, memory64, PayloadView::ExportSection(Seq::empty()))
            == Outcome::Next(env),
        payload_step(env, config, memory64, PayloadView::ElementSection(Seq::empty()))
            == Outcome::Next(env),
        payload_step(env, config, memory64, PayloadView::DataSection(Seq::empty()))
            == Outcome::Next(env),
        payload_step(env, config, memory64, PayloadView::NameSection(Seq::empty()))
            == Outcome::Next(env),
    decreases memories.len(),
{
    assert(readable(Seq::empty()) =~= Seq::empty());
    if memories.len() > 0 {
        assert forall|i: int| 0 <= i < memories.drop_last().len() implies (
        #[trigger] memories.drop_last()[i]) is Ok by {
            assert(memories[i] is Ok);
        }
        what_declares_nothing_changes_nothing(env, config, memory64, memories.drop_last());
        assert(memories.last() == memories[memories.len() - 1]);
    }
}

/// A component is not supported, and a tag section or an unknown payload has no
/// result.
pub proof fn only_modules_are_translated(
    env: EnvView,
    config: WasmTranslationConfig,
    memory64: bool,
)
    ensures
        payload_step(
            env,
            config,
            memory64,
            PayloadView::Version { encoding: Encoding::Component },
        ) == (Outcome::Fails(env, ErrorView::Unsupported("component model"@))),
        payload_step(env, config, memory64, PayloadView::TagSection) is Halts,
        payload_step(env, config, memory64, PayloadView::Other) is Halts,
{
}

/// One more import adds one initializer at the end, which names the module and
/// the field that the import names, and the entity that was added: the next one
/// of its kind, of the type that the import has. It counts as imported, and
/// nothing else changes. Memories and tags cannot be imported.
pub proof fn an_import_adds_the_entity_that_it_names(
    env: EnvView,
    config: WasmTranslationConfig,
    memory64: bool,
    entries: Seq<Result<ImportView, ReadErrorView>>,
    import: ImportView,
    before: EnvView,
)
    requires
        payload_step(env, config, memory64, PayloadView::ImportSection(entries)) == Outcome::Next(
            before,
        ),
        before.wf(),
    ensures
        ({
            let outcome = payload_step(
                env,
                config,
                memory64,
                PayloadView::ImportSection(entries.push(Ok(import))),
            );
            let module = before.result.module;
            match import.ty {
                ImportKind::Func(ty) => if ty < module.types.len() && module.functions.len()
                    < u32::MAX {
                    &&& outcome matches Outcome::Next(after)
                    &&& after.result.wasm_file.imported_func_count
                        == before.result.wasm_file.imported_func_count + 1
                    &&& after == (EnvView {
                        result: TranslationView {
                            module: ModuleView {
                                functions: module.functions.push(
                                    FunctionType {
                                        signature: module.types[ty as int]->Function_0,
                                        func_ref: FuncRefIndex(u32::MAX),
                                    },
                                ),
                                initializers: module.initializers.push(
                                    InitializerView {
                                        name: import.module,
                                        field: import.name,
                                        index: EntityIndex::Function(
                                            FuncIndex(module.functions.len() as u32),
                                        ),
                                    },
                                ),
                                num_imported_funcs: module.num_imported_funcs + 1,
                                ..module
                            },
                            wasm_file: WasmFileView {
                                imported_func_count:
                                    after.result.wasm_file.imported_func_count,
                                ..before.result.wasm_file
                            },
                            ..before.result
                        },
                        ..before
                    })
                } else {
                    outcome is Halts
                },
                ImportKind::Table(table) => if module.tables.len() < u32::MAX {
                    outcome == (Outcome::Next(
                        EnvView {
                            result: TranslationView {
                                module: ModuleView {
                                    tables: module.tables.push(table),
                                    initializers: module.initializers.push(
                                        InitializerView {
                                            name: import.module,
                                            field: import.name,
                                            index: EntityIndex::Table(
                                                TableIndex(module.tables.len() as u32),
                                            ),
                                        },
                                    ),
                                    num_imported_tables: module.num_imported_tables + 1,
                                    ..module
                                },
                                ..before.result
                            },
                            ..before
                        },
                    ))
                } else {
                    outcome is Halts
                },
                ImportKind::Global(global) => if module.globals.len() < u32::MAX {
                    outcome == (Outcome::Next(
                        EnvView {
                            result: TranslationView {
                                module: ModuleView {
                                    globals: module.globals.push(global),
                                    initializers: module.initializers.push(
                                        InitializerView {
                                            name: import.module,
                                            field: import.name,
                                            index: EntityIndex::Global(
                                                GlobalIndex(module.globals.len() as u32),
                                            ),
                                        },
                                    ),
                                    num_imported_globals: module.num_imported_globals + 1,
                                    ..module
                                },
                                ..before.result
                            },
                            ..before
                        },
                    ))
                } else {
                    outcome is Halts
                },
                ImportKind::Memory(_) => outcome is Halts,
                ImportKind::Tag(_) => outcome is Halts,
            }
        }),
{
    lemma_fold_push(env.result, entries, Ok(import), import_steps(), before.result);
}

/// Whether `entity` has the type that an import has, in the module `module`.
pub open spec fn entity_has_type(module: ModuleView, entity: EntityIndex, ty: ImportKind) -> bool {
    match (entity, ty) {
        (EntityIndex::Function(func), ImportKind::Func(ty)) => func.0 < module.functions.len() && ty
            < module.types.len() && module.types[ty as int] == ModuleType::Function(
            module.functions[func.0 as int].signature,
        ),
        (EntityIndex::Table(table), ImportKind::Table(ty)) => table.0 < module.tables.len()
            && module.tables[table.0 as int] == ty,
        (EntityIndex::Global(global), ImportKind::Global(ty)) => global.0 < module.globals.len()
            && module.globals[global.0 as int] == ty,
        _ => false,
    }
}

/// An import section that is translated adds an initializer for each import, in
/// their order and behind the ones that are there: with the module and the field
/// that the import names, and with an entity of the type that it has.
pub proof fn every_import_is_initialized_under_its_names(
    env: EnvView,
    config: WasmTranslationConfig,
    memory64: bool,
    entries: Seq<Result<ImportView, ReadErrorView>>,
    after: EnvView,
)
    requires
        payload_step(env, config, memory64, PayloadView::ImportSection(entries)) == Outcome::Next(
            after,
        ),
    ensures
        ({
            let old = env.result.module.initializers;
            let new = after.result.module.initializers;
            &&& new.len() == old.len() + entries.len()
            &&& forall|i: int| 0 <= i < old.len() ==> #[trigger] new[i] == old[i]
            &&& forall|i: int|
                0 <= i < entries.len() ==> (#[trigger] entries[i] matches Ok(import) && {
                    &&& new[old.len() + i].name == import.module
                    &&& new[old.len() + i].field == import.name
                    &&& entity_has_type(
                        after.result.module,
                        new[old.len() + i].index,
                        import.ty,
                    )
                })
        }),
    decreases entries.len(),
{
    if entries.len() > 0 {
        let rest = entries.drop_last();
        let middle = import_section(env.result, rest)->Next_0;
        let before = EnvView { result: middle, ..env };
        every_import_is_initialized_under_its_names(env, config, memory64, rest, before);
        let old = env.result.module.initializers;
        let new = after.result.module.initializers;
        assert(import_step(middle, entries.last()->Ok_0) == Outcome::Next(after.result));
        assert(entries.last() == entries[entries.len() - 1]);
        assert forall|i: int| 0 <= i < entries.len() implies (#[trigger] entries[i] matches Ok(
            import,
        ) && {
            &&& new[old.len() + i].name == import.module
            &&& new[old.len() + i].field == import.name
            &&& entity_has_type(after.result.module, new[old.len() + i].index, import.ty)
        }) by {
            if i < rest.len() {
                assert(rest[i] == entries[i]);
                assert(new[old.len() + i] == middle.module.initializers[old.len() + i]);
            }
        }
    }
}

/// One more function adds a function with the signature of the type that the
/// entry numbers, which does not escape, and nothing else changes.
pub proof fn a_function_has_the_signature_of_its_type(
    env: EnvView,
    config: WasmTranslationConfig,
    memory64: bool,
    entries: Seq<Result<u32, ReadErrorView>>,
    ty: u32,
    before: EnvView,
)
    requires
        payload_step(env, config, memory64, PayloadView::FunctionSection(entries)) == Outcome::Next(
            before,
        ),
    ensures
        ({
            let outcome = payload_step(
                env,
                config,
                memory64,
                PayloadView::FunctionSection(entries.push(Ok(ty))),
            );
            let module = before.result.module;
            if ty < module.types.len() && module.functions.len() < u32::MAX {
                outcome == (Outcome::Next(
                    EnvView {
                        result: TranslationView {
                            module: ModuleView {
                                functions: module.functions.push(
                                    FunctionType {
                                        signature: module.types[ty as int]->Function_0,
                                        func_ref: FuncRefIndex(u32::MAX),
                                    },
                                ),
                                ..module
                            },
                            ..before.result
                        },
                        ..before
                    },
                ))
            } else {
                outcome is Halts
            }
        }),
{
    lemma_fold_push(env.result, entries, Ok(ty), function_steps(), before.result);
}

/// A function section that is translated adds a function for each entry, in
/// their order, with the signature of the type that the entry numbers.
pub proof fn every_function_has_the_signature_of_its_type(
    env: EnvView,
    config: WasmTranslationConfig,
    memory64: bool,
    entries: Seq<Result<u32, ReadErrorView>>,
    after: EnvView,
)
    requires
        payload_step(env, config, memory64, PayloadView::FunctionSection(entries)) == Outcome::Next(
            after,
        ),
    ensures
        ({
            let module = env.result.module;
            let old = module.functions;
            let new = after.result.module.functions;
            &&& new.len() == old.len() + entries.len()
            &&& forall|i: int| 0 <= i < old.len() ==> #[trigger] new[i] == old[i]
            &&& forall|i: int|
                0 <= i < entries.len() ==> (#[trigger] entries[i] matches Ok(ty) && ty
                    < module.types.len() && ModuleType::Function(new[old.len() + i].signature)
                    == module.types[ty as int] && new[old.len() + i].func_ref.0 == u32::MAX)
            &&& after.result.module == (ModuleView { functions: new, ..module })
        }),
    decreases entries.len(),
{
    if entries.len() > 0 {
        let rest = entries.drop_last();
        let middle = function_section(env.result, rest)->Next_0;
        let before = EnvView { result: middle, ..env };
        every_function_has_the_signature_of_its_type(env, config, memory64, rest, before);
        let module = env.result.module;
        let old = module.functions;
        let new = after.result.module.functions;
        assert(function_step(middle, entries.last()->Ok_0) == Outcome::Next(after.result));
        assert forall|i: int| 0 <= i < entries.len() implies (#[trigger] entries[i] matches Ok(ty)
            && ty < module.types.len() && ModuleType::Function(new[old.len() + i].signature)
            == module.types[ty as int] && new[old.len() + i].func_ref.0 == u32::MAX) by {
            if i < rest.len() {
                assert(rest[i] == entries[i]);
                assert(new[old.len() + i] == middle.module.functions[old.len() + i]);
            }
        }
    }
}

/// One more table adds a table of the type that the entry has. Its elements
/// start as null, unless the entry has them start as references to a function:
/// then they start as that, and the function escapes. Nothing else changes, and
/// other expressions are not supported.
pub proof fn a_table_starts_as_its_entry_says(
    env: EnvView,
    config: WasmTranslationConfig,
    memory64: bool,
    entries: Seq<Result<TableEntryView, ReadErrorView>>,
    table: TableEntryView,
    before: EnvView,
)
    requires
        payload_step(env, config, memory64, PayloadView::TableSection(entries)) == Outcome::Next(
            before,
        ),
        before.wf(),
    ensures
        ({
            let outcome = payload_step(
                env,
                config,
                memory64,
                PayloadView::TableSection(entries.push(Ok(table))),
            );
            let module = before.result.module;
            let declared = ModuleView { tables: module.tables.push(table.ty), ..module };
            let with_null = EnvView {
                result: TranslationView {
                    module: ModuleView {
                        initial_values: module.initial_values.push(
                            InitialValueView::Null { precomputed: Seq::empty() },
                        ),
                        ..declared
                    },
                    ..before.result
                },
                ..before
            };
            let failed = EnvView {
                result: TranslationView { module: declared, ..before.result },
                ..before
            };
            if module.tables.len() >= u32::MAX {
                outcome is Halts
            } else {
                match table.init {
                    None => outcome == Outcome::Next(with_null),
                    Some(Err(error)) => outcome == (Outcome::Fails(
                        failed,
                        ErrorView::InvalidWebAssembly {
                            message: error.message,
                            offset: error.offset,
                        },
                    )),
                    Some(Ok(init)) => match init.op {
                        ConstOp::RefNull => outcome == Outcome::Next(with_null),
                        ConstOp::RefFunc(func) => if func < module.functions.len() {
                            &&& outcome matches Outcome::Next(after)
                            &&& lets_escape(module, after.result.module, func)
                            &&& after == (EnvView {
                                result: TranslationView {
                                    module: ModuleView {
                                        initial_values: module.initial_values.push(
                                            InitialValueView::FuncRef(FuncIndex(func)),
                                        ),
                                        functions: after.result.module.functions,
                                        num_escaped_funcs: after.result.module.num_escaped_funcs,
                                        ..declared
                                    },
                                    ..before.result
                                },
                                ..before
                            })
                        } else {
                            outcome is Halts
                        },
                        _ => outcome == (Outcome::Fails(
                            failed,
                            ErrorView::Unsupported(
                                "unsupported init expr in table section: "@ + init.text,
                            ),
                        )),
                    },
                }
            }
        }),
{
    lemma_fold_push(env.result, entries, Ok(table), table_steps(), before.result);
    let module = before.result.module;
    if let Some(Ok(init)) = table.init {
        if let ConstOp::RefFunc(func) = init.op {
            if func < module.functions.len() && !module.functions[func as int].escapes() {
                lemma_number_left(module, FuncIndex(func));
            }
        }
    }
}

/// One more global adds a global of the type that the entry has, which starts
/// as the constant of the entry, of the same type, or as the global that the
/// entry numbers. Nothing else changes, and other expressions are not supported.
pub proof fn a_global_starts_as_its_entry_says(
    env: EnvView,
    config: WasmTranslationConfig,
    memory64: bool,
    entries: Seq<Result<GlobalEntryView, ReadErrorView>>,
    global: GlobalEntryView,
    before: EnvView,
)
    requires
        payload_step(env, config, memory64, PayloadView::GlobalSection(entries)) == Outcome::Next(
            before,
        ),
    ensures
        ({
            let outcome = payload_step(
                env,
                config,
                memory64,
                PayloadView::GlobalSection(entries.push(Ok(global))),
            );
            let module = before.result.module;
            let starts_as = |value: GlobalInit|
                if module.globals.len() < u32::MAX {
                    outcome == (Outcome::Next(
                        EnvView {
                            result: TranslationView {
                                module: ModuleView {
                                    globals: module.globals.push(global.ty),
                                    global_initializers: module.global_initializers.push(value),
                                    ..module
                                },
                                ..before.result
                            },
                            ..before
                        },
                    ))
                } else {
                    outcome is Halts
                };
            match global.init {
                Err(error) => outcome == (Outcome::Fails(
                    before,
                    ErrorView::InvalidWebAssembly { message: error.message, offset: error.offset },
                )),
                Ok(init) => match init.op {
                    ConstOp::I32Const(value) => starts_as(GlobalInit::I32Const(value)),
                    ConstOp::I64Const(value) => starts_as(GlobalInit::I64Const(value)),
                    ConstOp::F32Const(bits) => starts_as(GlobalInit::F32Const(bits)),
                    ConstOp::F64Const(bits) => starts_as(GlobalInit::F64Const(bits)),
                    ConstOp::V128Const(bits) => starts_as(GlobalInit::V128Const(bits)),
                    ConstOp::GlobalGet(other) => if other < u32::MAX {
                        starts_as(GlobalInit::GetGlobal(GlobalIndex(other)))
                    } else {
                        outcome is Halts
                    },
                    ConstOp::RefNull => outcome is Halts,
                    ConstOp::RefFunc(_) => outcome is Halts,
                    ConstOp::Other => outcome == (Outcome::Fails(
                        before,
                        ErrorView::Unsupported(
                            "unsupported init expr in global section: "@ + init.text,
                        ),
                    )),
                },
            }
        }),
{
    lemma_fold_push(env.result, entries, Ok(global), global_steps(), before.result);
}

/// Whether `entity` is what an export exports: the entity of its kind with its
/// number.
pub open spec fn is_exported_by(entity: EntityIndex, export: ExportView) -> bool {
    match export.kind {
        ExportKind::Func => entity == EntityIndex::Function(FuncIndex(export.index)),
        ExportKind::Table => entity == EntityIndex::Table(TableIndex(export.index)),
        ExportKind::Memory => entity == EntityIndex::Memory(MemoryIndex(export.index)),
        ExportKind::Global => entity == EntityIndex::Global(GlobalIndex(export.index)),
        ExportKind::Tag => false,
    }
}

/// One more export exports, under its name, the entity of its kind with its
/// number: behind all others, or in the place of the export that had the name.
/// A function that is exported escapes. Nothing else changes.
pub proof fn an_export_exports_the_entity_that_it_numbers(
    env: EnvView,
    config: WasmTranslationConfig,
    memory64: bool,
    entries: Seq<Result<ExportView, ReadErrorView>>,
    export: ExportView,
    before: EnvView,
)
    requires
        payload_step(env, config, memory64, PayloadView::ExportSection(entries)) == Outcome::Next(
            before,
        ),
        before.wf(),
    ensures
        ({
            let outcome = payload_step(
                env,
                config,
                memory64,
                PayloadView::ExportSection(entries.push(Ok(export))),
            );
            let module = before.result.module;
            if export.kind is Tag || export.index == u32::MAX || (export.kind is Func
                && export.index >= module.functions.len()) {
                outcome is Halts
            } else {
                &&& outcome matches Outcome::Next(after)
                &&& exists|at: int, entity: EntityIndex|
                    {
                        &&& 0 <= at <= module.exports.len()
                        &&& is_exported_by(entity, export)
                        &&& forall|i: int|
                            0 <= i < module.exports.len() && i != at ==> (
                            #[trigger] module.exports[i]).0 != export.name
                        &&& if at < module.exports.len() {
                            &&& module.exports[at].0 == export.name
                            &&& after.result.module.exports == #[trigger] module.exports.update(
                                at,
                                (export.name, entity),
                            )
                        } else {
                            after.result.module.exports == module.exports.push(
                                (export.name, entity),
                            )
                        }
                    }
                &&& if export.kind is Func {
                    lets_escape(module, after.result.module, export.index)
                } else {
                    &&& after.result.module.functions == module.functions
                    &&& after.result.module.num_escaped_funcs == module.num_escaped_funcs
                }
                &&& after == (EnvView {
                    result: TranslationView {
                        module: ModuleView {
                            exports: after.result.module.exports,
                            functions: after.result.module.functions,
                            num_escaped_funcs: after.result.module.num_escaped_funcs,
                            ..module
                        },
                        ..before.result
                    },
                    ..before
                })
            }
        }),
{
    lemma_fold_push(env.result, entries, Ok(export), export_steps(), before.result);
    let module = before.result.module;
    if export.kind is Func && export.index < module.functions.len() && !module.functions[
        export.index as int
    ].escapes() {
        lemma_number_left(module, FuncIndex(export.index));
    }
    let entity = match export.kind {
        ExportKind::Func => EntityIndex::Function(FuncIndex(export.index)),
        ExportKind::Table => EntityIndex::Table(TableIndex(export.index)),
        ExportKind::Memory => EntityIndex::Memory(MemoryIndex(export.index)),
        _ => EntityIndex::Global(GlobalIndex(export.index)),
    };
    let at = lemma_with_export_place(module.exports, export.name, entity);
    if let Outcome::Next(after) = export_step(before.result, export) {
        assert(is_exported_by(entity, export));
        let updated = module.exports.update(at, (export.name, entity));
    }
}

/// An export section without a name twice exports, when it is translated, each
/// of its entries under the name of the entry: the entity of the entry's kind
/// with the entry's number. Names that it does not have stay what they were.
pub proof fn every_export_is_found_under_its_name(
    env: EnvView,
    config: WasmTranslationConfig,
    memory64: bool,
    entries: Seq<Result<ExportView, ReadErrorView>>,
    after: EnvView,
)
    requires
        payload_step(env, config, memory64, PayloadView::ExportSection(entries)) == Outcome::Next(
            after,
        ),
        names_are_distinct(env.result.module.exports),
        forall|i: int, j: int|
            0 <= i < j < entries.len() ==> (#[trigger] entries[i])->Ok_0.name != (
            #[trigger] entries[j])->Ok_0.name,
    ensures
        names_are_distinct(after.result.module.exports),
        forall|i: int|
            0 <= i < entries.len() ==> (#[trigger] entries[i] matches Ok(export) && exists|
                entity: EntityIndex,
            |
                is_exported_by(entity, export)
                    && #[trigger] after.result.module.exports.contains((export.name, entity))),
        forall|name: Seq<char>, entity: EntityIndex|
            (forall|i: int| 0 <= i < entries.len() ==> (#[trigger] entries[i])->Ok_0.name != name)
                ==> (#[trigger] after.result.module.exports.contains((name, entity))
                <==> env.result.module.exports.contains((name, entity))),
    decreases entries.len(),
{
    if entries.len() > 0 {
        let rest = entries.drop_last();
        let middle = export_section(env.result, rest)->Next_0;
        let before = EnvView { result: middle, ..env };
        assert forall|i: int, j: int| 0 <= i < j < rest.len() implies (
        #[trigger] rest[i])->Ok_0.name != (#[trigger] rest[j])->Ok_0.name by {
            assert(rest[i] == entries[i] && rest[j] == entries[j]);
        }
        every_export_is_found_under_its_name(env, config, memory64, rest, before);
        let last = entries.last()->Ok_0;
        assert(entries.last() == entries[entries.len() - 1]);
        assert(export_step(middle, last) == Outcome::Next(after.result));
        let entity = match last.kind {
            ExportKind::Func => EntityIndex::Function(FuncIndex(last.index)),
            ExportKind::Table => EntityIndex::Table(TableIndex(last.index)),
            ExportKind::Memory => EntityIndex::Memory(MemoryIndex(last.index)),
            _ => EntityIndex::Global(GlobalIndex(last.index)),
        };
        exporting_sets_one_name(middle.module.exports, last.name, entity);
        let new = after.result.module.exports;
        assert(is_exported_by(entity, last) && new.contains((last.name, entity)));
        assert forall|i: int| 0 <= i < entries.len() implies (#[trigger] entries[i] matches Ok(
            export,
        ) && exists|entity: EntityIndex|
            is_exported_by(entity, export) && #[trigger] new.contains((export.name, entity))) by {
            if i < rest.len() {
                assert(rest[i] == entries[i]);
                let export = rest[i]->Ok_0;
                let found = choose|entity: EntityIndex|
                    is_exported_by(entity, export) && #[trigger] middle.module.exports.contains(
                        (export.name, entity),
                    );
                assert(entries[i]->Ok_0.name != entries[entries.len() - 1]->Ok_0.name);
                assert(new.contains((export.name, found)));
            }
        }
        assert forall|name: Seq<char>, entity: EntityIndex|
            (forall|i: int|
                0 <= i < entries.len() ==> (#[trigger] entries[i])->Ok_0.name != name) implies (
        #[trigger] new.contains((name, entity)) <==> env.result.module.exports.contains(
            (name, entity),
        )) by {
            assert(entries[entries.len() - 1]->Ok_0.name != name);
            assert forall|i: int| 0 <= i < rest.len() implies (#[trigger] rest[i])->Ok_0.name
                != name by {
                assert(rest[i] == entries[i]);
            }
            assert(middle.module.exports.contains((name, entity))
                <==> env.result.module.exports.contains((name, entity)));
        }
    }
}

/// The start section makes the function with its number the start function,
/// which escapes, and changes nothing else. A module has one start function at
/// most.
pub proof fn the_start_function_is_the_one_that_is_numbered(
    env: EnvView,
    config: WasmTranslationConfig,
    memory64: bool,
    func: u32,
)
    requires
        env.wf(),
    ensures
        ({
            let outcome = payload_step(env, config, memory64, PayloadView::StartSection { func });
            let module = env.result.module;
            if func < module.functions.len() && module.start_func is None {
                &&& outcome matches Outcome::Next(after)
                &&& lets_escape(module, after.result.module, func)
                &&& after == (EnvView {
                    result: TranslationView {
                        module: ModuleView {
                            start_func: Some(FuncIndex(func)),
                            functions: after.result.module.functions,
                            num_escaped_funcs: after.result.module.num_escaped_funcs,
                            ..module
                        },
                        ..env.result
                    },
                    ..env
                })
            } else {
                outcome is Halts
            }
        }),
{
    let module = env.result.module;
    if func < module.functions.len() && !module.functions[func as int].escapes() {
        lemma_number_left(module, FuncIndex(func));
    }
}

/// One more data segment lists its bytes behind those that are listed already,
/// and changes nothing else.
pub proof fn a_data_segment_lists_its_bytes(
    env: EnvView,
    config: WasmTranslationConfig,
    memory64: bool,
    entries: Seq<Result<Seq<u8>, ReadErrorView>>,
    bytes: Seq<u8>,
    before: EnvView,
)
    requires
        payload_step(env, config, memory64, PayloadView::DataSection(entries)) == Outcome::Next(
            before,
        ),
    ensures
        payload_step(env, config, memory64, PayloadView::DataSection(entries.push(Ok(bytes)))) == (
        Outcome::Next(
            EnvView {
                result: TranslationView {
                    data: before.result.data.push(bytes),
                    ..before.result
                },
                ..before
            },
        )),
{
    lemma_fold_push(env.result, entries, Ok(bytes), data_steps(), before.result);
}

} // verus!

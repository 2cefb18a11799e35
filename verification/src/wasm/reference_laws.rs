//! Whatever a module refers to escapes it.
use vstd::prelude::*;

use super::debuginfo::WasmTranslationConfig;
use super::elements::{
    element_step, element_steps, expression_elements, function_element, function_elements,
    with_elements, with_segment, Elements, Segments,
};
use super::error::{lemma_fold_next_keeps, lemma_fold_reaches, Outcome, ReadErrorView};
use super::escape_laws::{
    export_refers, input_refers_to, is_reference, items_refer, refers_to, table_refers,
};
use super::index::FuncIndex;
use super::laws::{
    a_new_environment_is_sound, env_is_sound, every_payload_keeps_the_environment_sound,
    func_escapes,
};
use super::module::{
    escaping_is_idempotent, exporting_sets_one_name, lemma_with_escaped_wf, with_escaped,
    with_export, EntityIndex, ModuleView,
};
use super::module_env::{payload_step, readable, run, run_steps, type_steps, EnvView, RunView};
use super::names::name_section_changes_only_names;
use super::parser::payloads;
use super::payload::{
    ConstOp, ConstOperatorView, ElementListView, ElementView, ExportView, PayloadView,
    TableEntryView,
};
use super::raw::{RawView, ValidView, WasmFeatures};
use super::reader::complete;
use super::run_laws::taken_payload;
use super::sections::{
    data_steps, export_step, export_steps, function_steps, global_steps, import_steps, memory_steps,
    table_step, table_steps,
};
use super::translation::TranslationView;

verus! {

/// Whether a function escapes, as a property of translations.
spec fn escaping(func: FuncIndex) -> spec_fn(TranslationView) -> bool {
    |t: TranslationView| func_escapes(t.module, func)
}

/// Whether the module is as it should be, as a property of translations.
spec fn valid() -> spec_fn(TranslationView) -> bool {
    |t: TranslationView| t.module.wf()
}

/// Letting a function escape takes that from no other.
proof fn lemma_stays(module: ModuleView, other: FuncIndex, func: FuncIndex)
    requires
        func_escapes(module, func),
    ensures
        other.0 < module.functions.len() ==> func_escapes(with_escaped(module, other), func),
{
    if other != func && other.0 < module.functions.len() {
        assert(with_escaped(module, other).functions[func.0 as int]
            == module.functions[func.0 as int]);
    }
}

/// A function that escapes goes on to do so when a segment lists others.
proof fn lemma_segment_keeps(state: Segments, segment: ElementView, func: FuncIndex)
    requires
        func_escapes(state.0.module, func),
    ensures
        element_step(state, segment) matches Outcome::Next(after) ==> func_escapes(
            after.0.module,
            func,
        ),
{
    let keeps = |state: Elements| func_escapes(state.0.module, func);
    let start: Elements = (state.0, Seq::empty());
    assert forall|state: Elements, f: u32| keeps(state) implies (#[trigger] function_elements()(
        state,
        f,
    ) matches Outcome::Next(after) ==> keeps(after)) by {
        lemma_stays(state.0.module, FuncIndex(f), func);
    }
    match segment.items {
        ElementListView::Functions(functions) => {
            lemma_fold_next_keeps(start, functions, function_elements(), keeps);
        },
        ElementListView::Expressions(expressions) => {
            assert forall|state: Elements, expression: ConstOperatorView| keeps(state) implies (
            #[trigger] expression_elements()(state, expression) matches Outcome::Next(after)
                ==> keeps(after)) by {
                if let ConstOp::RefFunc(f) = expression.op {
                    lemma_stays(state.0.module, FuncIndex(f), func);
                }
            }
            lemma_fold_next_keeps(start, expressions, expression_elements(), keeps);
        },
    }
    if let Outcome::Next((listed, elements)) = with_elements(state.0, segment.items) {
        if let Outcome::Next(after) = with_segment(listed, state.1, segment.place, elements) {
            assert(after.module.functions == listed.module.functions);
        }
    }
}

/// Whatever payload is translated, functions that escape go on to do so.
pub proof fn functions_that_escape_go_on_to_do_so(
    env: EnvView,
    config: WasmTranslationConfig,
    memory64: bool,
    payload: PayloadView,
    func: FuncIndex,
)
    requires
        func_escapes(env.result.module, func),
    ensures
        payload_step(env, config, memory64, payload) matches Outcome::Next(after) ==> func_escapes(
            after.result.module,
            func,
        ),
{
    let t = env.result;
    let keeps = escaping(func);
    match payload {
        PayloadView::TypeSection(types) => {
            lemma_fold_next_keeps(
                env,
                readable(types),
                type_steps(),
                |env: EnvView| func_escapes(env.result.module, func),
            );
        },
        PayloadView::ImportSection(entries) => {
            lemma_fold_next_keeps(t, entries, import_steps(), keeps);
        },
        PayloadView::FunctionSection(entries) => {
            lemma_fold_next_keeps(t, entries, function_steps(), keeps);
        },
        PayloadView::TableSection(entries) => {
            lemma_tables_keep(func);
            lemma_fold_next_keeps(t, entries, table_steps(), keeps);
        },
        PayloadView::MemorySection(entries) => {
            lemma_fold_next_keeps(t, entries, memory_steps(), keeps);
        },
        PayloadView::GlobalSection(entries) => {
            lemma_fold_next_keeps(t, entries, global_steps(), keeps);
        },
        PayloadView::ExportSection(entries) => {
            lemma_exports_keep(func);
            lemma_fold_next_keeps(t, entries, export_steps(), keeps);
        },
        PayloadView::StartSection { func: start } => {
            lemma_stays(t.module, FuncIndex(start), func);
        },
        PayloadView::ElementSection(entries) => {
            lemma_segments_keep(func);
            lemma_fold_next_keeps(
                (t, 0nat),
                entries,
                element_steps(),
                |state: Segments| func_escapes(state.0.module, func),
            );
        },
        PayloadView::NameSection(subsections) => {
            name_section_changes_only_names(t.module, config, subsections);
        },
        PayloadView::DataSection(entries) => {
            lemma_fold_next_keeps(t, entries, data_steps(), keeps);
        },
        _ => {},
    }
}

/// Tables take that a function escapes from none.
proof fn lemma_tables_keep(func: FuncIndex)
    ensures
        forall|t: TranslationView, table: TableEntryView|
            escaping(func)(t) ==> (#[trigger] table_steps()(t, table) matches Outcome::Next(after)
                ==> escaping(func)(after)),
{
    assert forall|t: TranslationView, table: TableEntryView| escaping(func)(t) implies (
    #[trigger] table_steps()(t, table) matches Outcome::Next(after) ==> escaping(func)(after)) by {
        if let Some(Ok(init)) = table.init {
            if let ConstOp::RefFunc(f) = init.op {
                let declared = ModuleView { tables: t.module.tables.push(table.ty), ..t.module };
                lemma_stays(declared, FuncIndex(f), func);
            }
        }
    }
}

/// Exports take that a function escapes from none.
proof fn lemma_exports_keep(func: FuncIndex)
    ensures
        forall|t: TranslationView, export: ExportView|
            escaping(func)(t) ==> (#[trigger] export_steps()(t, export) matches Outcome::Next(after)
                ==> escaping(func)(after)),
{
    assert forall|t: TranslationView, export: ExportView| escaping(func)(t) implies (
    #[trigger] export_steps()(t, export) matches Outcome::Next(after) ==> escaping(func)(
        after,
    )) by {
        lemma_stays(t.module, FuncIndex(export.index), func);
    }
}

/// Element segments take that a function escapes from none.
proof fn lemma_segments_keep(func: FuncIndex)
    ensures
        forall|state: Segments, segment: ElementView|
            func_escapes(state.0.module, func) ==> (#[trigger] element_steps()(state, segment)
                matches Outcome::Next(after) ==> func_escapes(after.0.module, func)),
{
    assert forall|state: Segments, segment: ElementView|
        func_escapes(state.0.module, func) implies (#[trigger] element_steps()(state, segment)
        matches Outcome::Next(after) ==> func_escapes(after.0.module, func)) by {
        lemma_segment_keeps(state, segment, func);
    }
}

/// A table keeps the module as it should be, and the function escapes that it
/// starts as references to.
proof fn lemma_table(t: TranslationView, table: TableEntryView)
    requires
        t.module.wf(),
    ensures
        table_step(t, table) matches Outcome::Next(after) ==> after.module.wf() && forall|func: u32|
            #[trigger] table_refers(table, func) ==> func_escapes(after.module, FuncIndex(func)),
{
    if let Outcome::Next(after) = table_step(t, table) {
        let declared = ModuleView { tables: t.module.tables.push(table.ty), ..t.module };
        if let Some(Ok(init)) = table.init {
            if let ConstOp::RefFunc(f) = init.op {
                lemma_with_escaped_wf(declared, FuncIndex(f));
                escaping_is_idempotent(declared, FuncIndex(f));
            }
        }
    }
}

/// An export keeps the module as it should be, and the function escapes that it
/// exports.
proof fn lemma_export(t: TranslationView, export: ExportView)
    requires
        t.module.wf(),
    ensures
        export_step(t, export) matches Outcome::Next(after) ==> after.module.wf()
            && forall|func: u32| #[trigger]
            export_refers(export, func) ==> func_escapes(after.module, FuncIndex(func)),
{
    if let Outcome::Next(after) = export_step(t, export) {
        if export.kind is Func {
            lemma_with_escaped_wf(t.module, FuncIndex(export.index));
            escaping_is_idempotent(t.module, FuncIndex(export.index));
        }
        let before = if export.kind is Func {
            with_escaped(t.module, FuncIndex(export.index))
        } else {
            t.module
        };
        let entity = choose|entity: EntityIndex|
            after.module.exports == with_export(before.exports, export.name, entity);
        exporting_sets_one_name(before.exports, export.name, entity);
    }
}

/// An element that is a function keeps the module as it should be, and the
/// function escapes.
proof fn lemma_element(state: Elements, func: u32)
    requires
        state.0.module.wf(),
    ensures
        function_element(state, func) matches Outcome::Next(after) ==> after.0.module.wf()
            && func_escapes(after.0.module, FuncIndex(func)),
{
    if func < state.0.module.functions.len() {
        lemma_with_escaped_wf(state.0.module, FuncIndex(func));
        escaping_is_idempotent(state.0.module, FuncIndex(func));
    }
}

/// An element segment keeps the module as it should be, and the functions
/// escape that it lists.
proof fn lemma_segment(state: Segments, segment: ElementView)
    requires
        state.0.module.wf(),
    ensures
        element_step(state, segment) matches Outcome::Next(after) ==> after.0.module.wf()
            && forall|func: u32| #[trigger]
            items_refer(segment.items, func) ==> func_escapes(after.0.module, FuncIndex(func)),
{
    let keeps = |state: Elements| state.0.module.wf();
    let start: Elements = (state.0, Seq::empty());
    match segment.items {
        ElementListView::Functions(functions) => {
            let steps = function_elements();
            assert forall|state: Elements, f: u32| keeps(state) implies (#[trigger] steps(
                state,
                f,
            ) matches Outcome::Next(after) ==> keeps(after)) by {
                lemma_element(state, f);
            }
            lemma_fold_next_keeps(start, functions, steps, keeps);
            if let Outcome::Next(listed) = with_elements(state.0, segment.items) {
                assert forall|func: u32| #[trigger] items_refer(
                    segment.items,
                    func,
                ) implies func_escapes(listed.0.module, FuncIndex(func)) by {
                    let reached = |state: Elements| func_escapes(state.0.module, FuncIndex(func));
                    assert forall|state: Elements| keeps(state) implies (#[trigger] steps(
                        state,
                        func,
                    ) matches Outcome::Next(after) ==> reached(after)) by {
                        lemma_element(state, func);
                    }
                    assert forall|state: Elements, f: u32| reached(state) implies (#[trigger] steps(
                        state,
                        f,
                    ) matches Outcome::Next(after) ==> reached(after)) by {
                        lemma_stays(state.0.module, FuncIndex(f), FuncIndex(func));
                    }
                    lemma_fold_reaches(start, functions, steps, func, keeps, reached);
                }
            }
        },
        ElementListView::Expressions(expressions) => {
            let steps = expression_elements();
            assert forall|state: Elements, expression: ConstOperatorView| keeps(state) implies (
            #[trigger] steps(state, expression) matches Outcome::Next(after) ==> keeps(after)) by {
                if let ConstOp::RefFunc(f) = expression.op {
                    lemma_element(state, f);
                }
            }
            lemma_fold_next_keeps(start, expressions, steps, keeps);
            if let Outcome::Next(listed) = with_elements(state.0, segment.items) {
                assert forall|func: u32| #[trigger] items_refer(
                    segment.items,
                    func,
                ) implies func_escapes(listed.0.module, FuncIndex(func)) by {
                    let expression = choose|expression: ConstOperatorView| #[trigger]
                        expressions.contains(Ok::<ConstOperatorView, ReadErrorView>(expression))
                            && is_reference(expression, func);
                    let reached = |state: Elements| func_escapes(state.0.module, FuncIndex(func));
                    assert forall|state: Elements| keeps(state) implies (#[trigger] steps(
                        state,
                        expression,
                    ) matches Outcome::Next(after) ==> reached(after)) by {
                        lemma_element(state, func);
                    }
                    assert forall|state: Elements, other: ConstOperatorView|
                        reached(state) implies (#[trigger] steps(state, other)
                        matches Outcome::Next(after) ==> reached(after)) by {
                        if let ConstOp::RefFunc(f) = other.op {
                            lemma_stays(state.0.module, FuncIndex(f), FuncIndex(func));
                        }
                    }
                    lemma_fold_reaches(start, expressions, steps, expression, keeps, reached);
                }
            }
        },
    }
    if let Outcome::Next((listed, elements)) = with_elements(state.0, segment.items) {
        if let Outcome::Next(after) = with_segment(listed, state.1, segment.place, elements) {
            assert(after.module.functions == listed.module.functions);
            assert forall|func: u32| #[trigger] items_refer(
                segment.items,
                func,
            ) implies func_escapes(after.module, FuncIndex(func)) by {
                assert(func_escapes(listed.module, FuncIndex(func)));
            }
        }
    }
}

/// Once a payload is translated, every function that it exports, starts with,
/// lists in an element segment of any kind, or has a table start as references
/// to, escapes.
pub proof fn functions_that_a_payload_refers_to_escape(
    env: EnvView,
    config: WasmTranslationConfig,
    memory64: bool,
    payload: PayloadView,
    func: u32,
)
    requires
        env.wf(),
        refers_to(payload, func),
    ensures
        payload_step(env, config, memory64, payload) matches Outcome::Next(after) ==> func_escapes(
            after.result.module,
            FuncIndex(func),
        ),
{
    let t = env.result;
    let reached = escaping(FuncIndex(func));
    match payload {
        PayloadView::TableSection(entries) => {
            let table = choose|table: TableEntryView| #[trigger]
                entries.contains(Ok::<TableEntryView, ReadErrorView>(table)) && table_refers(
                    table,
                    func,
                );
            assert forall|t: TranslationView, other: TableEntryView| valid()(t) implies (
            #[trigger] table_steps()(t, other) matches Outcome::Next(after) ==> valid()(after)) by {
                lemma_table(t, other);
            }
            assert forall|t: TranslationView| valid()(t) implies (#[trigger] table_steps()(
                t,
                table,
            ) matches Outcome::Next(after) ==> reached(after)) by {
                lemma_table(t, table);
            }
            lemma_tables_keep(FuncIndex(func));
            lemma_fold_reaches(t, entries, table_steps(), table, valid(), reached);
        },
        PayloadView::ExportSection(entries) => {
            let export = choose|export: ExportView| #[trigger]
                entries.contains(Ok::<ExportView, ReadErrorView>(export)) && export_refers(
                    export,
                    func,
                );
            assert forall|t: TranslationView, other: ExportView| valid()(t) implies (
            #[trigger] export_steps()(t, other) matches Outcome::Next(after) ==> valid()(
                after,
            )) by {
                lemma_export(t, other);
            }
            assert forall|t: TranslationView| valid()(t) implies (#[trigger] export_steps()(
                t,
                export,
            ) matches Outcome::Next(after) ==> reached(after)) by {
                lemma_export(t, export);
            }
            lemma_exports_keep(FuncIndex(func));
            lemma_fold_reaches(t, entries, export_steps(), export, valid(), reached);
        },
        PayloadView::StartSection { func: start } => {
            if start < t.module.functions.len() {
                escaping_is_idempotent(t.module, FuncIndex(start));
            }
        },
        PayloadView::ElementSection(entries) => {
            let segment = choose|segment: ElementView| #[trigger]
                entries.contains(Ok::<ElementView, ReadErrorView>(segment)) && items_refer(
                    segment.items,
                    func,
                );
            let keeps = |state: Segments| state.0.module.wf();
            let listed = |state: Segments| func_escapes(state.0.module, FuncIndex(func));
            assert forall|state: Segments, other: ElementView| keeps(state) implies (
            #[trigger] element_steps()(state, other) matches Outcome::Next(after) ==> keeps(
                after,
            )) by {
                lemma_segment(state, other);
            }
            assert forall|state: Segments| keeps(state) implies (#[trigger] element_steps()(
                state,
                segment,
            ) matches Outcome::Next(after) ==> listed(after)) by {
                lemma_segment(state, segment);
            }
            lemma_segments_keep(FuncIndex(func));
            lemma_fold_reaches((t, 0nat), entries, element_steps(), segment, keeps, listed);
        },
        _ => {},
    }
}

/// Every function that a translated module exports, starts with, lists in an
/// element segment of any kind, or has a table start as references to, escapes.
pub proof fn functions_that_a_module_refers_to_escape(
    env: EnvView,
    config: WasmTranslationConfig,
    features: WasmFeatures,
    offset: u64,
    data: Seq<u8>,
    func: u32,
)
    requires
        env.result == TranslationView::empty(),
        env.signatures.no_duplicates(),
        input_refers_to(payloads(offset, data), func),
    ensures
        run(env, config, features, offset, data) matches Outcome::Next(state) ==> func_escapes(
            state.env.result.module,
            FuncIndex(func),
        ),
{
    let found = payloads(offset, data);
    let steps = run_steps(config, features);
    let start = RunView { env, accepted: Seq::empty() };
    let sound = |state: RunView| env_is_sound(state.env, config);
    let reached = |state: RunView| func_escapes(state.env.result.module, FuncIndex(func));
    let raw = choose|raw: RawView| #[trigger]
        found.contains(Ok::<RawView, ReadErrorView>(raw)) && refers_to(
            complete(raw.content, ValidView::Done, Seq::empty()),
            func,
        );
    a_new_environment_is_sound(env.signatures, env.warnings, config);
    assert forall|state: RunView, other: RawView| sound(state) implies (#[trigger] steps(
        state,
        other,
    ) matches Outcome::Next(after) ==> sound(after)) by {
        let taken = taken_payload(state, features, other);
        every_payload_keeps_the_environment_sound(state.env, config, features.memory64, taken);
    }
    assert forall|state: RunView| sound(state) implies (#[trigger] steps(
        state,
        raw,
    ) matches Outcome::Next(after) ==> reached(after)) by {
        if steps(state, raw) is Next {
            let taken = taken_payload(state, features, raw);
            assert(refers_to(taken, func));
            functions_that_a_payload_refers_to_escape(
                state.env,
                config,
                features.memory64,
                taken,
                func,
            );
        }
    }
    assert forall|state: RunView, other: RawView| reached(state) implies (#[trigger] steps(
        state,
        other,
    ) matches Outcome::Next(after) ==> reached(after)) by {
        let taken = taken_payload(state, features, other);
        functions_that_escape_go_on_to_do_so(
            state.env,
            config,
            features.memory64,
            taken,
            FuncIndex(func),
        );
    }
    lemma_fold_reaches(start, found, steps, raw, sound, reached);
}

} // verus!

//! Which functions escape a module, and why.
use vstd::prelude::*;

use super::debuginfo::WasmTranslationConfig;
use super::elements::{
    element_section, element_step, element_steps, expression_elements, function_element,
    function_elements, with_elements, with_segment, Elements, Segments,
};
use super::error::{lemma_fold_keeps, lemma_fold_keeps_for, outcome_keeps, Outcome, ReadErrorView};
use super::index::FuncIndex;
use super::laws::func_escapes;
use super::module::{with_escaped, ModuleView};
use super::module_env::{
    payload_step, readable, run, run_steps, type_step, type_steps, EnvView, RunView,
};
use super::names::{name_section, name_section_changes_only_names};
use super::parser::payloads;
use super::payload::{
    ConstOp, ConstOperatorView, DeclaredTypeView, ElementListView, ElementView, ExportView,
    GlobalEntryView, ImportView, PayloadView, TableEntryView,
};
use super::raw::{RawView, ValidView, WasmFeatures};
use super::reader::complete;
use super::run_laws::taken_payload;
use super::sections::{
    data_steps, export_step, export_steps, function_step, function_steps, global_step, global_steps,
    import_step, import_steps, memory_steps, start_section, table_step, table_steps,
};
use super::translation::TranslationView;

verus! {

/// Whether an expression is a reference to the function with this number.
pub open spec fn is_reference(expression: ConstOperatorView, func: u32) -> bool {
    expression.op == ConstOp::RefFunc(func)
}

/// Whether a table starts as references to the function with this number.
pub open spec fn table_refers(table: TableEntryView, func: u32) -> bool {
    table.init matches Some(Ok(init)) && is_reference(init, func)
}

/// Whether the function with this number is exported.
pub open spec fn export_refers(export: ExportView, func: u32) -> bool {
    export.kind is Func && export.index == func
}

/// Whether the function with this number is among the items of an element
/// segment.
pub open spec fn items_refer(items: ElementListView, func: u32) -> bool {
    match items {
        ElementListView::Functions(functions) => functions.contains(Ok::<u32, ReadErrorView>(func)),
        ElementListView::Expressions(expressions) => exists|expression: ConstOperatorView|
            #[trigger] expressions.contains(Ok::<ConstOperatorView, ReadErrorView>(expression))
                && is_reference(expression, func),
    }
}

/// Whether a table of the section starts as references to the function.
pub open spec fn tables_refer(
    entries: Seq<Result<TableEntryView, ReadErrorView>>,
    func: u32,
) -> bool {
    exists|table: TableEntryView| #[trigger]
        entries.contains(Ok::<TableEntryView, ReadErrorView>(table)) && table_refers(table, func)
}

/// Whether the section exports the function.
pub open spec fn exports_refer(entries: Seq<Result<ExportView, ReadErrorView>>, func: u32) -> bool {
    exists|export: ExportView| #[trigger]
        entries.contains(Ok::<ExportView, ReadErrorView>(export)) && export_refers(export, func)
}

/// Whether a segment of the section lists the function.
pub open spec fn segments_refer(
    entries: Seq<Result<ElementView, ReadErrorView>>,
    func: u32,
) -> bool {
    exists|segment: ElementView| #[trigger]
        entries.contains(Ok::<ElementView, ReadErrorView>(segment)) && items_refer(
            segment.items,
            func,
        )
}

/// Whether a payload exports the function with this number, starts with it,
/// lists it in an element segment, or has a table start as references to it.
pub open spec fn refers_to(payload: PayloadView, func: u32) -> bool {
    match payload {
        PayloadView::TableSection(entries) => tables_refer(entries, func),
        PayloadView::ExportSection(entries) => exports_refer(entries, func),
        PayloadView::StartSection { func: start } => start == func,
        PayloadView::ElementSection(entries) => segments_refer(entries, func),
        _ => false,
    }
}

/// Whether a function escapes `after` only if it escapes `before`, or if
/// `payload` refers to it.
pub open spec fn escapes_are_due_to(
    before: ModuleView,
    after: ModuleView,
    payload: PayloadView,
) -> bool {
    forall|func: FuncIndex| #[trigger]
        func_escapes(after, func) ==> func_escapes(before, func) || refers_to(payload, func.0)
}

/// A function that a payload refers to may escape because of it.
proof fn lemma_escape(before: ModuleView, module: ModuleView, payload: PayloadView, func: u32)
    requires
        escapes_are_due_to(before, module, payload),
        refers_to(payload, func),
        func < module.functions.len(),
    ensures
        escapes_are_due_to(before, with_escaped(module, FuncIndex(func)), payload),
{
    let after = with_escaped(module, FuncIndex(func));
    assert forall|f: FuncIndex| #[trigger] func_escapes(after, f) implies func_escapes(before, f)
        || refers_to(payload, f.0) by {
        if f.0 != func {
            assert(after.functions[f.0 as int] == module.functions[f.0 as int]);
            assert(func_escapes(module, f));
        }
    }
}

/// Where no other function escapes, the payload need not refer to more.
proof fn lemma_no_other(
    before: ModuleView,
    module: ModuleView,
    after: ModuleView,
    payload: PayloadView,
)
    requires
        escapes_are_due_to(before, module, payload),
        module.functions.len() <= after.functions.len(),
        forall|i: int|
            0 <= i < module.functions.len() ==> #[trigger] after.functions[i]
                == module.functions[i],
        forall|i: int|
            module.functions.len() <= i < after.functions.len() ==> !(
            #[trigger] after.functions[i]).escapes(),
    ensures
        escapes_are_due_to(before, after, payload),
{
    assert forall|f: FuncIndex| #[trigger] func_escapes(after, f) implies func_escapes(before, f)
        || refers_to(payload, f.0) by {
        assert(after.functions[f.0 as int] == module.functions[f.0 as int]);
        assert(func_escapes(module, f));
    }
}

/// An import lets no function escape.
proof fn lemma_import(before: ModuleView, t: TranslationView, import: ImportView, p: PayloadView)
    requires
        escapes_are_due_to(before, t.module, p),
    ensures
        outcome_keeps(
            import_step(t, import),
            |after: TranslationView| escapes_are_due_to(before, after.module, p),
        ),
{
    if let Outcome::Next(after) = import_step(t, import) {
        lemma_no_other(before, t.module, after.module, p);
    }
}

/// A function of the module does not escape by being declared.
proof fn lemma_function(before: ModuleView, t: TranslationView, ty: u32, p: PayloadView)
    requires
        escapes_are_due_to(before, t.module, p),
    ensures
        outcome_keeps(
            function_step(t, ty),
            |after: TranslationView| escapes_are_due_to(before, after.module, p),
        ),
{
    if let Outcome::Next(after) = function_step(t, ty) {
        lemma_no_other(before, t.module, after.module, p);
    }
}

/// A table lets only the function escape that it starts as references to.
proof fn lemma_table(before: ModuleView, t: TranslationView, table: TableEntryView, p: PayloadView)
    requires
        escapes_are_due_to(before, t.module, p),
        forall|func: u32| #[trigger] table_refers(table, func) ==> refers_to(p, func),
    ensures
        outcome_keeps(
            table_step(t, table),
            |after: TranslationView| escapes_are_due_to(before, after.module, p),
        ),
{
    let declared = ModuleView { tables: t.module.tables.push(table.ty), ..t.module };
    lemma_no_other(before, t.module, declared, p);
    if let Some(Ok(init)) = table.init {
        if let ConstOp::RefFunc(func) = init.op {
            assert(table_refers(table, func));
            if func < t.module.functions.len() {
                lemma_escape(before, declared, p, func);
            }
        }
    }
    if let Outcome::Next(after) = table_step(t, table) {
        let rest = ModuleView { initial_values: t.module.initial_values, ..after.module };
        assert(escapes_are_due_to(before, rest, p));
        lemma_no_other(before, rest, after.module, p);
    }
}

/// A global lets no function escape.
proof fn lemma_global(
    before: ModuleView,
    t: TranslationView,
    global: GlobalEntryView,
    p: PayloadView,
)
    requires
        escapes_are_due_to(before, t.module, p),
    ensures
        outcome_keeps(
            global_step(t, global),
            |after: TranslationView| escapes_are_due_to(before, after.module, p),
        ),
{
    if let Outcome::Next(after) = global_step(t, global) {
        lemma_no_other(before, t.module, after.module, p);
    }
}

/// An export lets only the function escape that it exports.
proof fn lemma_export(before: ModuleView, t: TranslationView, export: ExportView, p: PayloadView)
    requires
        escapes_are_due_to(before, t.module, p),
        forall|func: u32| #[trigger] export_refers(export, func) ==> refers_to(p, func),
    ensures
        outcome_keeps(
            export_step(t, export),
            |after: TranslationView| escapes_are_due_to(before, after.module, p),
        ),
{
    if let Outcome::Next(after) = export_step(t, export) {
        let escaped = if export.kind is Func {
            with_escaped(t.module, FuncIndex(export.index))
        } else {
            t.module
        };
        if export.kind is Func {
            assert(export_refers(export, export.index));
            lemma_escape(before, t.module, p, export.index);
        }
        lemma_no_other(before, escaped, after.module, p);
    }
}

/// A type lets no function escape.
proof fn lemma_type(
    before: ModuleView,
    env: EnvView,
    ty: Option<DeclaredTypeView>,
    p: PayloadView,
)
    requires
        escapes_are_due_to(before, env.result.module, p),
    ensures
        outcome_keeps(
            type_step(env, ty),
            |after: EnvView| escapes_are_due_to(before, after.result.module, p),
        ),
{
    if let Outcome::Next(after) = type_step(env, ty) {
        lemma_no_other(before, env.result.module, after.result.module, p);
    }
}

/// An element that is a function lets that function escape.
proof fn lemma_function_element(before: ModuleView, state: Elements, func: u32, p: PayloadView)
    requires
        escapes_are_due_to(before, state.0.module, p),
        refers_to(p, func),
    ensures
        outcome_keeps(
            function_element(state, func),
            |after: Elements| escapes_are_due_to(before, after.0.module, p),
        ),
{
    if func < state.0.module.functions.len() {
        lemma_escape(before, state.0.module, p, func);
    }
}

/// The elements of a segment let only functions escape that are among them.
proof fn lemma_elements(
    before: ModuleView,
    t: TranslationView,
    items: ElementListView,
    p: PayloadView,
)
    requires
        escapes_are_due_to(before, t.module, p),
        forall|func: u32| #[trigger] items_refer(items, func) ==> refers_to(p, func),
    ensures
        outcome_keeps(
            with_elements(t, items),
            |after: Elements| escapes_are_due_to(before, after.0.module, p),
        ),
{
    let keeps = |state: Elements| escapes_are_due_to(before, state.0.module, p);
    let start: Elements = (t, Seq::empty());
    match items {
        ElementListView::Functions(functions) => {
            assert forall|state: Elements, func: u32|
                keeps(state) && functions.contains(
                    Ok::<u32, ReadErrorView>(func),
                ) implies outcome_keeps(#[trigger] function_elements()(state, func), keeps) by {
                assert(items_refer(items, func));
                lemma_function_element(before, state, func, p);
            }
            lemma_fold_keeps_for(start, functions, function_elements(), keeps);
        },
        ElementListView::Expressions(expressions) => {
            assert forall|state: Elements, expression: ConstOperatorView|
                keeps(state) && expressions.contains(
                    Ok::<ConstOperatorView, ReadErrorView>(expression),
                ) implies outcome_keeps(
                #[trigger] expression_elements()(state, expression),
                keeps,
            ) by {
                if let ConstOp::RefFunc(func) = expression.op {
                    assert(is_reference(expression, func));
                    assert(items_refer(items, func));
                    lemma_function_element(before, state, func, p);
                }
            }
            lemma_fold_keeps_for(start, expressions, expression_elements(), keeps);
        },
    }
}

/// An element segment lets only functions escape that it lists.
proof fn lemma_segment(before: ModuleView, state: Segments, segment: ElementView, p: PayloadView)
    requires
        escapes_are_due_to(before, state.0.module, p),
        forall|func: u32| #[trigger] items_refer(segment.items, func) ==> refers_to(p, func),
    ensures
        outcome_keeps(
            element_step(state, segment),
            |after: Segments| escapes_are_due_to(before, after.0.module, p),
        ),
{
    lemma_elements(before, state.0, segment.items, p);
    if let Outcome::Next((listed, elements)) = with_elements(state.0, segment.items) {
        if let Outcome::Next(after) = with_segment(listed, state.1, segment.place, elements) {
            lemma_no_other(before, listed.module, after.module, p);
        }
    }
}

/// Element segments let only functions escape that they list.
proof fn lemma_segments(
    t: TranslationView,
    entries: Seq<Result<ElementView, ReadErrorView>>,
)
    ensures
        outcome_keeps(
            element_section(t, entries),
            |after: TranslationView|
                escapes_are_due_to(t.module, after.module, PayloadView::ElementSection(entries)),
        ),
{
    let p = PayloadView::ElementSection(entries);
    let keeps = |state: Segments| escapes_are_due_to(t.module, state.0.module, p);
    assert forall|state: Segments, segment: ElementView|
        keeps(state) && entries.contains(
            Ok::<ElementView, ReadErrorView>(segment),
        ) implies outcome_keeps(#[trigger] element_steps()(state, segment), keeps) by {
        assert forall|func: u32| #[trigger] items_refer(segment.items, func) implies refers_to(
            p,
            func,
        ) by {
            assert(segments_refer(entries, func));
        }
        lemma_segment(t.module, state, segment, p);
    }
    lemma_fold_keeps_for((t, 0nat), entries, element_steps(), keeps);
}

/// However a payload ends, the functions that escape then are those that
/// escaped before, and ones that the payload refers to.
pub proof fn only_functions_that_a_payload_refers_to_escape(
    env: EnvView,
    config: WasmTranslationConfig,
    memory64: bool,
    payload: PayloadView,
)
    ensures
        outcome_keeps(
            payload_step(env, config, memory64, payload),
            |after: EnvView|
                escapes_are_due_to(env.result.module, after.result.module, payload),
        ),
{
    let t = env.result;
    let m = t.module;
    let keeps = |after: TranslationView| escapes_are_due_to(m, after.module, payload);
    match payload {
        PayloadView::TypeSection(types) => {
            let sound = |after: EnvView| escapes_are_due_to(m, after.result.module, payload);
            assert forall|state: EnvView, ty: Option<DeclaredTypeView>|
                sound(state) implies outcome_keeps(#[trigger] type_steps()(state, ty), sound) by {
                lemma_type(m, state, ty, payload);
            }
            lemma_fold_keeps(env, readable(types), type_steps(), sound);
        },
        PayloadView::ImportSection(entries) => {
            assert forall|state: TranslationView, import: ImportView|
                keeps(state) implies outcome_keeps(
                #[trigger] import_steps()(state, import),
                keeps,
            ) by {
                lemma_import(m, state, import, payload);
            }
            lemma_fold_keeps(t, entries, import_steps(), keeps);
        },
        PayloadView::FunctionSection(entries) => {
            assert forall|state: TranslationView, ty: u32| keeps(state) implies outcome_keeps(
                #[trigger] function_steps()(state, ty),
                keeps,
            ) by {
                lemma_function(m, state, ty, payload);
            }
            lemma_fold_keeps(t, entries, function_steps(), keeps);
        },
        PayloadView::TableSection(entries) => {
            assert forall|state: TranslationView, table: TableEntryView|
                keeps(state) && entries.contains(
                    Ok::<TableEntryView, ReadErrorView>(table),
                ) implies outcome_keeps(#[trigger] table_steps()(state, table), keeps) by {
                assert(forall|func: u32| #[trigger]
                    table_refers(table, func) ==> tables_refer(entries, func));
                lemma_table(m, state, table, payload);
            }
            lemma_fold_keeps_for(t, entries, table_steps(), keeps);
        },
        PayloadView::MemorySection(entries) => {
            lemma_fold_keeps(t, entries, memory_steps(), keeps);
        },
        PayloadView::GlobalSection(entries) => {
            assert forall|state: TranslationView, global: GlobalEntryView|
                keeps(state) implies outcome_keeps(
                #[trigger] global_steps()(state, global),
                keeps,
            ) by {
                lemma_global(m, state, global, payload);
            }
            lemma_fold_keeps(t, entries, global_steps(), keeps);
        },
        PayloadView::ExportSection(entries) => {
            assert forall|state: TranslationView, export: ExportView|
                keeps(state) && entries.contains(
                    Ok::<ExportView, ReadErrorView>(export),
                ) implies outcome_keeps(#[trigger] export_steps()(state, export), keeps) by {
                assert(forall|func: u32| #[trigger]
                    export_refers(export, func) ==> exports_refer(entries, func));
                lemma_export(m, state, export, payload);
            }
            lemma_fold_keeps_for(t, entries, export_steps(), keeps);
        },
        PayloadView::StartSection { func } => {
            if let Outcome::Next(after) = start_section(t, func) {
                lemma_escape(m, m, payload, func);
                lemma_no_other(m, with_escaped(m, FuncIndex(func)), after.module, payload);
            }
        },
        PayloadView::ElementSection(entries) => {
            lemma_segments(t, entries);
        },
        PayloadView::NameSection(subsections) => {
            name_section_changes_only_names(m, config, subsections);
            match name_section(m, config, subsections) {
                Outcome::Next(module) => lemma_no_other(m, m, module, payload),
                Outcome::Fails(module, _) => lemma_no_other(m, m, module, payload),
                Outcome::Halts => {},
            }
        },
        PayloadView::DataSection(entries) => {
            lemma_fold_keeps(t, entries, data_steps(), keeps);
        },
        _ => {},
    }
}

/// Whether a payload of the input refers to the function with this number.
pub open spec fn input_refers_to(found: Seq<Result<RawView, ReadErrorView>>, func: u32) -> bool {
    exists|raw: RawView| #[trigger]
        found.contains(Ok::<RawView, ReadErrorView>(raw)) && refers_to(
            complete(raw.content, ValidView::Done, Seq::empty()),
            func,
        )
}

/// However the translation of a module ends, a function escapes only if the
/// module exports it, starts with it, lists it in an element segment, or has a
/// table start as references to it.
pub proof fn only_functions_that_a_module_refers_to_escape(
    env: EnvView,
    config: WasmTranslationConfig,
    features: WasmFeatures,
    offset: u64,
    data: Seq<u8>,
)
    requires
        env.result == TranslationView::empty(),
    ensures
        outcome_keeps(
            run(env, config, features, offset, data),
            |state: RunView|
                forall|func: FuncIndex| #[trigger]
                    func_escapes(state.env.result.module, func) ==> input_refers_to(
                        payloads(offset, data),
                        func.0,
                    ),
        ),
{
    let found = payloads(offset, data);
    let keeps = |state: RunView|
        forall|func: FuncIndex| #[trigger]
            func_escapes(state.env.result.module, func) ==> input_refers_to(found, func.0);
    let steps = run_steps(config, features);
    assert forall|state: RunView, raw: RawView|
        keeps(state) && found.contains(Ok::<RawView, ReadErrorView>(raw)) implies outcome_keeps(
        #[trigger] steps(state, raw),
        keeps,
    ) by {
        let taken = taken_payload(state, features, raw);
        only_functions_that_a_payload_refers_to_escape(
            state.env,
            config,
            features.memory64,
            taken,
        );
        assert forall|func: u32| #[trigger] refers_to(taken, func) implies input_refers_to(
            found,
            func,
        ) by {
            assert(refers_to(complete(raw.content, ValidView::Done, Seq::empty()), func));
        }
    }
    lemma_fold_keeps_for(RunView { env, accepted: Seq::empty() }, found, steps, keeps);
}

} // verus!

//! What holds of the translation of a whole module.
use vstd::prelude::*;

use super::debuginfo::WasmTranslationConfig;
use super::elements::{
    element_section, element_steps, expression_elements, function_elements, Elements, Segments,
};
use super::error::{
    entry_outcome, fold, invalid, lemma_fold_entry, lemma_fold_keeps, lemma_fold_next_keeps,
    outcome_keeps, the_first_failure_decides, Outcome, ReadErrorView,
};
use super::exported::exported_lists_what_escapes;
use super::module::ModuleView;
use super::module_env::{
    after_custom_section, after_names, for_result, payload_step, readable, run, run_step, run_steps,
    type_step, type_steps, EnvView, RunView,
};
use super::names::{name_section, name_section_changes_only_names};
use super::order::{bodies_in_payload, ends_with_end, functions_in_payload, to_validate};
use super::parser::{declared_types, payloads, validation};
use super::payload::{CompositeView, DeclaredTypeView, ElementListView, ElementView, PayloadView};
use super::raw::{ContentView, RawView, ValidView, ValidatorView, WasmFeatures};
use super::reader::{complete, custom_payload};
use super::sections::{
    data_section, data_steps, export_section, export_steps, function_section, function_steps,
    global_section, global_steps, import_section, import_steps, memory_section, memory_steps,
    start_section, table_section, table_steps,
};
use super::translation::{with_body, with_code_section, with_end, TranslationView};
use super::types::{interning_keeps_numbers, FuncTypeView};

verus! {

/// Whether `after` has the signatures of `before`, with the same numbers.
pub open spec fn extends(before: Seq<FuncTypeView>, after: Seq<FuncTypeView>) -> bool {
    &&& after.no_duplicates()
    &&& before.len() <= after.len()
    &&& forall|i: int| 0 <= i < before.len() ==> #[trigger] after[i] == before[i]
}

/// A type keeps the numbers of signatures that are interned.
proof fn lemma_type_extends(
    signatures: Seq<FuncTypeView>,
    env: EnvView,
    ty: Option<DeclaredTypeView>,
)
    requires
        extends(signatures, env.signatures),
    ensures
        outcome_keeps(
            type_step(env, ty),
            |after: EnvView| extends(signatures, after.signatures),
        ),
{
    if let Outcome::Next(after) = type_step(env, ty) {
        if let CompositeView::Func(signature) = ty->Some_0.composite {
            interning_keeps_numbers(env.signatures, signature);
            assert forall|i: int| 0 <= i < signatures.len() implies #[trigger] after.signatures[i]
                == signatures[i] by {
                assert(env.signatures[i] == signatures[i]);
            }
        }
    }
}

/// What comes to the translation alone leaves interned signatures as they are.
proof fn lemma_for_result(env: EnvView, outcome: Outcome<TranslationView>)
    requires
        env.signatures.no_duplicates(),
    ensures
        outcome_keeps(
            for_result(env, outcome),
            |after: EnvView| extends(env.signatures, after.signatures),
        ),
{
}

/// Whatever payload comes, signatures that are interned keep their numbers.
pub proof fn every_payload_keeps_interned_signatures(
    env: EnvView,
    config: WasmTranslationConfig,
    memory64: bool,
    payload: PayloadView,
)
    requires
        env.signatures.no_duplicates(),
    ensures
        outcome_keeps(
            payload_step(env, config, memory64, payload),
            |after: EnvView| extends(env.signatures, after.signatures),
        ),
{
    let t = env.result;
    match payload {
        PayloadView::TypeSection(types) => {
            let keeps = |after: EnvView| extends(env.signatures, after.signatures);
            assert forall|state: EnvView, ty: Option<DeclaredTypeView>|
                keeps(state) implies outcome_keeps(#[trigger] type_steps()(state, ty), keeps) by {
                lemma_type_extends(env.signatures, state, ty);
            }
            lemma_fold_keeps(env, readable(types), type_steps(), keeps);
        },
        PayloadView::End { types } => lemma_for_result(env, Outcome::Next(with_end(t, types))),
        PayloadView::ImportSection(entries) => lemma_for_result(env, import_section(t, entries)),
        PayloadView::FunctionSection(entries) => {
            lemma_for_result(env, function_section(t, entries))
        },
        PayloadView::TableSection(entries) => lemma_for_result(env, table_section(t, entries)),
        PayloadView::MemorySection(entries) => lemma_for_result(env, memory_section(t, entries)),
        PayloadView::GlobalSection(entries) => lemma_for_result(env, global_section(t, entries)),
        PayloadView::ExportSection(entries) => lemma_for_result(env, export_section(t, entries)),
        PayloadView::StartSection { func } => lemma_for_result(env, start_section(t, func)),
        PayloadView::ElementSection(entries) => lemma_for_result(env, element_section(t, entries)),
        PayloadView::CodeSectionStart { start } => lemma_for_result(
            env,
            Outcome::Next(with_code_section(t, start)),
        ),
        PayloadView::CodeSectionEntry { body, validator, locals } => lemma_for_result(
            env,
            with_body(t, env.signatures, config, memory64, body, validator, locals),
        ),
        PayloadView::DataSection(entries) => lemma_for_result(env, data_section(t, entries)),
        PayloadView::NameSection(subsections) => {
            let named = name_section(t.module, config, subsections);
            assert(payload_step(env, config, memory64, payload) == after_names(env, named));
        },
        PayloadView::CustomSection { name, data } => {
            let after = after_custom_section(env, config, name, data);
            assert(after.signatures == env.signatures);
        },
        _ => {},
    }
}

/// Whatever a module holds, and however its translation ends, signatures that
/// are interned keep their numbers: modules can share them.
pub proof fn every_module_keeps_interned_signatures(
    env: EnvView,
    config: WasmTranslationConfig,
    features: WasmFeatures,
    offset: u64,
    data: Seq<u8>,
)
    requires
        env.signatures.no_duplicates(),
    ensures
        outcome_keeps(
            run(env, config, features, offset, data),
            |state: RunView| extends(env.signatures, state.env.signatures),
        ),
{
    let keeps = |state: RunView| extends(env.signatures, state.env.signatures);
    let steps = run_steps(config, features);
    assert forall|state: RunView, raw: RawView| keeps(state) implies outcome_keeps(
        #[trigger] steps(state, raw),
        keeps,
    ) by {
        let taken = taken_payload(state, features, raw);
        every_payload_keeps_interned_signatures(state.env, config, features.memory64, taken);
    }
    lemma_fold_keeps(
        RunView { env, accepted: Seq::empty() },
        payloads(offset, data),
        steps,
        keeps,
    );
}

/// The payload that `raw` is, if the validator accepts it.
pub open spec fn taken_payload(
    state: RunView,
    features: WasmFeatures,
    raw: RawView,
) -> PayloadView {
    match raw.content {
        ContentView::CustomSection { name, data, offset } => custom_payload(name, data, offset),
        _ => match validation(ValidatorView { features, accepted: state.accepted }, raw) {
            Ok(valid) => complete(
                raw.content,
                valid,
                declared_types(ValidatorView { features, accepted: state.accepted.push(raw) }),
            ),
            Err(_) => PayloadView::Other,
        },
    }
}

/// Whether all payloads could be read, and a validator with these features
/// accepts all of them that are validated.
pub open spec fn is_valid(
    features: WasmFeatures,
    found: Seq<Result<RawView, ReadErrorView>>,
) -> bool
    decreases found.len(),
{
    found.len() == 0 || (is_valid(features, found.drop_last()) && match found.last() {
        Ok(raw) => raw.content is CustomSection || validation(
            ValidatorView { features, accepted: to_validate(found.drop_last()) },
            raw,
        ) is Ok,
        Err(_) => false,
    })
}

/// A module that is translated is valid: everything in it was validated along
/// the way.
pub proof fn a_translated_module_is_valid(
    env: EnvView,
    config: WasmTranslationConfig,
    features: WasmFeatures,
    offset: u64,
    data: Seq<u8>,
)
    ensures
        run(env, config, features, offset, data) is Next ==> is_valid(
            features,
            payloads(offset, data),
        ),
{
    lemma_translated_is_valid(env, config, features, payloads(offset, data));
}

/// Payloads that were all translated are valid.
proof fn lemma_translated_is_valid(
    env: EnvView,
    config: WasmTranslationConfig,
    features: WasmFeatures,
    found: Seq<Result<RawView, ReadErrorView>>,
)
    ensures
        fold(
            RunView { env, accepted: Seq::empty() },
            found,
            run_steps(config, features),
        ) matches Outcome::Next(state) ==> is_valid(features, found) && state.accepted
            == to_validate(found),
    decreases found.len(),
{
    if found.len() > 0 {
        lemma_translated_is_valid(env, config, features, found.drop_last());
    }
}

/// A payload that the validator refuses ends the translation with the
/// validator's error, whatever comes after it.
pub proof fn an_invalid_payload_is_an_error(
    env: EnvView,
    config: WasmTranslationConfig,
    features: WasmFeatures,
    offset: u64,
    data: Seq<u8>,
    k: int,
    state: RunView,
    raw: RawView,
    error: ReadErrorView,
)
    requires
        0 <= k < payloads(offset, data).len(),
        fold(
            RunView { env, accepted: Seq::empty() },
            payloads(offset, data).take(k),
            run_steps(config, features),
        ) == Outcome::Next(state),
        payloads(offset, data)[k] == Ok::<RawView, ReadErrorView>(raw),
        !(raw.content is CustomSection),
        validation(ValidatorView { features, accepted: state.accepted }, raw) == Err::<
            ValidView,
            ReadErrorView,
        >(error),
    ensures
        run(env, config, features, offset, data) == Outcome::Fails(state, invalid(error)),
{
    let start = RunView { env, accepted: Seq::empty() };
    lemma_fold_entry(start, payloads(offset, data), k, run_steps(config, features), state);
}

/// A module that is translated to its end has the types that the validator
/// handed out there, and the signatures that are listed as exported are exactly
/// those of the functions that escape.
pub proof fn a_translated_module_is_complete(
    env: EnvView,
    config: WasmTranslationConfig,
    features: WasmFeatures,
    offset: u64,
    data: Seq<u8>,
)
    requires
        ends_with_end(payloads(offset, data)),
    ensures
        run(env, config, features, offset, data) matches Outcome::Next(state) ==> {
            &&& state.env.result.is_complete()
            &&& state.accepted.len() > 0
            &&& validation(
                ValidatorView { features, accepted: state.accepted.drop_last() },
                state.accepted.last(),
            ) == Ok::<ValidView, ReadErrorView>(
                ValidView::End(state.env.result.types->Some_0),
            )
        },
{
    let found = payloads(offset, data);
    let start = RunView { env, accepted: Seq::empty() };
    let steps = run_steps(config, features);
    if let Outcome::Next(state) = run(env, config, features, offset, data) {
        exported_lists_what_escapes(state.env.result.module.functions);
        if let Outcome::Next(before) = fold(start, found.drop_last(), steps) {
            let last = found.last()->Ok_0;
            assert(steps(before, last) == Outcome::Next(state));
            assert(state.accepted.drop_last() =~= before.accepted);
        }
    }
}

/// A module is translated exactly when each of its payloads can be read, is
/// valid and is translated; otherwise the first one for which this does not
/// hold decides, and none after it is looked at.
pub proof fn the_first_failure_ends_a_translation(
    env: EnvView,
    config: WasmTranslationConfig,
    features: WasmFeatures,
    offset: u64,
    data: Seq<u8>,
)
    ensures
        ({
            let start = RunView { env, accepted: Seq::empty() };
            let found = payloads(offset, data);
            let steps = run_steps(config, features);
            let outcome = run(env, config, features, offset, data);
            &&& outcome is Next <==> forall|k: int|
                0 <= k < found.len() ==> #[trigger] entry_outcome(start, found, k, steps) is Next
            &&& !(outcome is Next) ==> exists|k: int|
                0 <= k < found.len() && fold(start, found.take(k), steps) is Next && outcome
                    == #[trigger] entry_outcome(start, found, k, steps)
        }),
{
    the_first_failure_decides(
        RunView { env, accepted: Seq::empty() },
        payloads(offset, data),
        run_steps(config, features),
    );
}

/// Whether every table and every global of the module that is not imported
/// starts as something.
pub open spec fn all_is_initialized(module: ModuleView) -> bool {
    &&& module.initial_values.len() + module.num_imported_tables == module.tables.len()
    &&& module.global_initializers.len() + module.num_imported_globals == module.globals.len()
}

/// A payload that is translated leaves no table and no global without a start.
pub proof fn every_translated_payload_initializes(
    env: EnvView,
    config: WasmTranslationConfig,
    memory64: bool,
    payload: PayloadView,
)
    requires
        all_is_initialized(env.result.module),
    ensures
        payload_step(env, config, memory64, payload) matches Outcome::Next(after)
            ==> all_is_initialized(after.result.module),
{
    let t = env.result;
    let keeps = |t: TranslationView| all_is_initialized(t.module);
    match payload {
        PayloadView::TypeSection(types) => {
            lemma_fold_next_keeps(
                env,
                readable(types),
                type_steps(),
                |env: EnvView| all_is_initialized(env.result.module),
            );
        },
        PayloadView::ImportSection(entries) => {
            lemma_fold_next_keeps(t, entries, import_steps(), keeps);
        },
        PayloadView::FunctionSection(entries) => {
            lemma_fold_next_keeps(t, entries, function_steps(), keeps);
        },
        PayloadView::TableSection(entries) => {
            lemma_fold_next_keeps(t, entries, table_steps(), keeps);
        },
        PayloadView::MemorySection(entries) => {
            lemma_fold_next_keeps(t, entries, memory_steps(), keeps);
        },
        PayloadView::GlobalSection(entries) => {
            lemma_fold_next_keeps(t, entries, global_steps(), keeps);
        },
        PayloadView::ExportSection(entries) => {
            lemma_fold_next_keeps(t, entries, export_steps(), keeps);
        },
        PayloadView::ElementSection(entries) => {
            lemma_segments_keep_counts(t, entries);
        },
        PayloadView::NameSection(subsections) => {
            name_section_changes_only_names(t.module, config, subsections);
        },
        PayloadView::DataSection(entries) => {
            lemma_fold_next_keeps(t, entries, data_steps(), keeps);
        },
        _ => {},
    }
}

/// Whether the entities of both are as many.
spec fn same_counts(a: TranslationView, b: TranslationView) -> bool {
    &&& b.bodies == a.bodies
    &&& b.module.functions.len() == a.module.functions.len()
    &&& b.module.num_imported_funcs == a.module.num_imported_funcs
    &&& b.module.tables.len() == a.module.tables.len()
    &&& b.module.num_imported_tables == a.module.num_imported_tables
    &&& b.module.initial_values.len() == a.module.initial_values.len()
    &&& b.module.globals.len() == a.module.globals.len()
    &&& b.module.num_imported_globals == a.module.num_imported_globals
    &&& b.module.global_initializers.len() == a.module.global_initializers.len()
}

/// Element segments add no entities.
proof fn lemma_segments_keep_counts(
    t: TranslationView,
    entries: Seq<Result<ElementView, ReadErrorView>>,
)
    ensures
        element_section(t, entries) matches Outcome::Next(after) ==> same_counts(t, after),
{
    let keeps = |state: Segments| same_counts(t, state.0);
    let steps = element_steps();
    assert forall|state: Segments, segment: ElementView| keeps(state) implies (#[trigger] steps(
        state,
        segment,
    ) matches Outcome::Next(after) ==> keeps(after)) by {
        let listed = |state: Elements| same_counts(t, state.0);
        let start: Elements = (state.0, Seq::empty());
        match segment.items {
            ElementListView::Functions(functions) => {
                lemma_fold_next_keeps(start, functions, function_elements(), listed);
            },
            ElementListView::Expressions(expressions) => {
                lemma_fold_next_keeps(start, expressions, expression_elements(), listed);
            },
        }
    }
    lemma_fold_next_keeps((t, 0nat), entries, steps, keeps);
}

/// The number of functions that a payload declares.
pub open spec fn declared_by(payload: PayloadView) -> nat {
    match payload {
        PayloadView::FunctionSection(entries) => entries.len(),
        _ => 0,
    }
}

/// The number of function bodies in a payload.
pub open spec fn bodies_in(payload: PayloadView) -> nat {
    if payload is CodeSectionEntry {
        1
    } else {
        0
    }
}

/// Whether `after` has `functions` functions that are not imported, and
/// `bodies` function bodies, more than `before`.
pub open spec fn has_more(
    before: TranslationView,
    after: TranslationView,
    functions: nat,
    bodies: nat,
) -> bool {
    &&& after.module.functions.len() - after.module.num_imported_funcs
        == before.module.functions.len() - before.module.num_imported_funcs + functions
    &&& after.bodies.len() == before.bodies.len() + bodies
}

/// A function section that is translated adds a function for each entry.
proof fn lemma_function_section_counts(
    t: TranslationView,
    entries: Seq<Result<u32, ReadErrorView>>,
)
    ensures
        function_section(t, entries) matches Outcome::Next(after) ==> has_more(
            t,
            after,
            entries.len(),
            0,
        ),
    decreases entries.len(),
{
    if entries.len() > 0 {
        lemma_function_section_counts(t, entries.drop_last());
    }
}

/// A payload that is translated adds the functions that it declares, and the
/// function bodies that it has, and no others.
pub proof fn every_payload_adds_what_it_holds(
    env: EnvView,
    config: WasmTranslationConfig,
    memory64: bool,
    payload: PayloadView,
)
    ensures
        payload_step(env, config, memory64, payload) matches Outcome::Next(after) ==> has_more(
            env.result,
            after.result,
            declared_by(payload),
            bodies_in(payload),
        ),
{
    let t = env.result;
    let keeps = |after: TranslationView| has_more(t, after, 0, 0);
    match payload {
        PayloadView::TypeSection(types) => {
            lemma_fold_next_keeps(
                env,
                readable(types),
                type_steps(),
                |after: EnvView| has_more(t, after.result, 0, 0),
            );
        },
        PayloadView::ImportSection(entries) => {
            lemma_fold_next_keeps(t, entries, import_steps(), keeps);
        },
        PayloadView::FunctionSection(entries) => {
            lemma_function_section_counts(t, entries);
        },
        PayloadView::TableSection(entries) => {
            lemma_fold_next_keeps(t, entries, table_steps(), keeps);
        },
        PayloadView::MemorySection(entries) => {
            lemma_fold_next_keeps(t, entries, memory_steps(), keeps);
        },
        PayloadView::GlobalSection(entries) => {
            lemma_fold_next_keeps(t, entries, global_steps(), keeps);
        },
        PayloadView::ExportSection(entries) => {
            lemma_fold_next_keeps(t, entries, export_steps(), keeps);
        },
        PayloadView::ElementSection(entries) => {
            lemma_segments_keep_counts(t, entries);
        },
        PayloadView::NameSection(subsections) => {
            name_section_changes_only_names(t.module, config, subsections);
        },
        PayloadView::DataSection(entries) => {
            lemma_fold_next_keeps(t, entries, data_steps(), keeps);
        },
        _ => {},
    }
}

/// A payload of the input that is translated adds the functions that it
/// declares, and the function bodies that it has.
pub(crate) proof fn lemma_run_step_counts(
    state: RunView,
    config: WasmTranslationConfig,
    features: WasmFeatures,
    raw: RawView,
)
    ensures
        run_step(state, config, features, raw) matches Outcome::Next(after) ==> has_more(
            state.env.result,
            after.env.result,
            functions_in_payload(raw.content),
            bodies_in_payload(raw.content),
        ),
{
    let taken = taken_payload(state, features, raw);
    every_payload_adds_what_it_holds(state.env, config, features.memory64, taken);
}

/// A module that is translated has no table and no global without a start.
pub proof fn a_translated_module_is_initialized(
    env: EnvView,
    config: WasmTranslationConfig,
    features: WasmFeatures,
    offset: u64,
    data: Seq<u8>,
)
    requires
        all_is_initialized(env.result.module),
    ensures
        run(env, config, features, offset, data) matches Outcome::Next(state)
            ==> all_is_initialized(state.env.result.module),
{
    let keeps = |state: RunView| all_is_initialized(state.env.result.module);
    let steps = run_steps(config, features);
    assert forall|state: RunView, raw: RawView| keeps(state) implies (#[trigger] steps(
        state,
        raw,
    ) matches Outcome::Next(after) ==> keeps(after)) by {
        let taken = taken_payload(state, features, raw);
        every_translated_payload_initializes(state.env, config, features.memory64, taken);
    }
    lemma_fold_next_keeps(
        RunView { env, accepted: Seq::empty() },
        payloads(offset, data),
        steps,
        keeps,
    );
}

} // verus!

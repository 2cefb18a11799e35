//! Where the function bodies of a translation come from.
use vstd::prelude::*;

use super::debuginfo::WasmTranslationConfig;
use super::elements::{element_steps, expression_elements, function_elements, Elements, Segments};
use super::error::{lemma_fold_keeps, outcome_keeps};
use super::module_env::{payload_step, readable, type_steps, EnvView};
use super::names::name_section_changes_only_names;
use super::payload::{ElementListView, ElementView, PayloadView};
use super::sections::{
    data_steps, export_steps, function_steps, global_steps, import_steps, memory_steps, table_steps,
};
use super::translation::TranslationView;

verus! {

/// Whatever payload comes, and whether or not it ends the translation, function
/// bodies stay as they are, unless the payload is one.
pub proof fn only_function_bodies_add_bodies(
    env: EnvView,
    config: WasmTranslationConfig,
    memory64: bool,
    payload: PayloadView,
)
    requires
        !(payload is CodeSectionEntry),
    ensures
        outcome_keeps(
            payload_step(env, config, memory64, payload),
            |after: EnvView| after.result.bodies == env.result.bodies,
        ),
{
    let t = env.result;
    let keeps = |after: TranslationView| after.bodies == t.bodies;
    match payload {
        PayloadView::TypeSection(types) => {
            lemma_fold_keeps(
                env,
                readable(types),
                type_steps(),
                |after: EnvView| after.result.bodies == t.bodies,
            );
        },
        PayloadView::ImportSection(entries) => {
            lemma_fold_keeps(t, entries, import_steps(), keeps);
        },
        PayloadView::FunctionSection(entries) => {
            lemma_fold_keeps(t, entries, function_steps(), keeps);
        },
        PayloadView::TableSection(entries) => {
            lemma_fold_keeps(t, entries, table_steps(), keeps);
        },
        PayloadView::MemorySection(entries) => {
            lemma_fold_keeps(t, entries, memory_steps(), keeps);
        },
        PayloadView::GlobalSection(entries) => {
            lemma_fold_keeps(t, entries, global_steps(), keeps);
        },
        PayloadView::ExportSection(entries) => {
            lemma_fold_keeps(t, entries, export_steps(), keeps);
        },
        PayloadView::ElementSection(entries) => {
            let sound = |state: Segments| state.0.bodies == t.bodies;
            assert forall|state: Segments, segment: ElementView|
                sound(state) implies outcome_keeps(
                #[trigger] element_steps()(state, segment),
                sound,
            ) by {
                let listed = |state: Elements| state.0.bodies == t.bodies;
                let start: Elements = (state.0, Seq::empty());
                match segment.items {
                    ElementListView::Functions(functions) => {
                        lemma_fold_keeps(start, functions, function_elements(), listed);
                    },
                    ElementListView::Expressions(expressions) => {
                        lemma_fold_keeps(start, expressions, expression_elements(), listed);
                    },
                }
            }
            lemma_fold_keeps((t, 0nat), entries, element_steps(), sound);
        },
        PayloadView::NameSection(subsections) => {
            name_section_changes_only_names(t.module, config, subsections);
        },
        PayloadView::DataSection(entries) => {
            lemma_fold_keeps(t, entries, data_steps(), keeps);
        },
        _ => {},
    }
}

} // verus!

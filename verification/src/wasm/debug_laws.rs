//! When a module has debug information that was not kept.
use vstd::prelude::*;

use super::debuginfo::{
    skipped_debug_sections_are_noted, slot_of, DebugView, DwarfSlot, WasmTranslationConfig,
};
use super::elements::{element_steps, expression_elements, function_elements, Elements, Segments};
use super::error::{fold, lemma_fold_keeps, outcome_keeps, Outcome, ReadErrorView};
use super::module_env::{payload_step, readable, run, run_steps, type_steps, EnvView, RunView};
use super::names::name_section_changes_only_names;
use super::parser::payloads;
use super::payload::{ElementListView, ElementView, PayloadView};
use super::raw::{ContentView, RawView, WasmFeatures};
use super::run_laws::taken_payload;
use super::sections::{
    data_steps, export_steps, function_steps, global_steps, import_steps, memory_steps, table_steps,
};
use super::text::begins_with;
use super::translation::TranslationView;
use super::warning::WarningView;

verus! {

/// Whether a payload of the input is a debug section.
pub open spec fn is_debug_section(found: Result<RawView, ReadErrorView>) -> bool {
    found matches Ok(raw) && (raw.content matches ContentView::CustomSection { name, data, offset }
        && begins_with(name, ".debug_"@))
}

/// Whether there is a debug section among the payloads of the input.
pub open spec fn has_debug_section(found: Seq<Result<RawView, ReadErrorView>>) -> bool {
    exists|i: int| 0 <= i < found.len() && is_debug_section(#[trigger] found[i])
}

/// Whatever payload comes, and whether or not it ends the translation, debug
/// sections stay as they are, unless the payload is a custom section.
pub proof fn only_custom_sections_change_debug_sections(
    env: EnvView,
    config: WasmTranslationConfig,
    memory64: bool,
    payload: PayloadView,
)
    requires
        !(payload is CustomSection),
    ensures
        outcome_keeps(
            payload_step(env, config, memory64, payload),
            |after: EnvView| after.result.debug == env.result.debug,
        ),
{
    let t = env.result;
    let keeps = |after: TranslationView| after.debug == t.debug;
    match payload {
        PayloadView::TypeSection(types) => {
            lemma_fold_keeps(
                env,
                readable(types),
                type_steps(),
                |after: EnvView| after.result.debug == t.debug,
            );
        },
        PayloadView::ImportSection(entries) => {
            lemma_fold_keeps(t, entries, import_steps(), keeps);
        },
        PayloadView::FunctionSection(entries) => {
            lemma_fold_keeps(t, entries, function_steps(), keeps);
        },
        PayloadView::TableSection(entries) => {
            lemma_fold_keeps(t, entries, table_steps(), keeps);
        },
        PayloadView::MemorySection(entries) => {
            lemma_fold_keeps(t, entries, memory_steps(), keeps);
        },
        PayloadView::GlobalSection(entries) => {
            lemma_fold_keeps(t, entries, global_steps(), keeps);
        },
        PayloadView::ExportSection(entries) => {
            lemma_fold_keeps(t, entries, export_steps(), keeps);
        },
        PayloadView::ElementSection(entries) => {
            let sound = |state: Segments| state.0.debug == t.debug;
            assert forall|state: Segments, segment: ElementView|
                sound(state) implies outcome_keeps(
                #[trigger] element_steps()(state, segment),
                sound,
            ) by {
                let listed = |state: Elements| state.0.debug == t.debug;
                let start: Elements = (state.0, Seq::empty());
                match segment.items {
                    ElementListView::Functions(functions) => {
                        lemma_fold_keeps(start, functions, function_elements(), listed);
                    },
                    ElementListView::Expressions(expressions) => {
                        lemma_fold_keeps(start, expressions, expression_elements(), listed);
                    },
                }
            }
            lemma_fold_keeps((t, 0nat), entries, element_steps(), sound);
        },
        PayloadView::NameSection(subsections) => {
            name_section_changes_only_names(t.module, config, subsections);
        },
        PayloadView::DataSection(entries) => {
            lemma_fold_keeps(t, entries, data_steps(), keeps);
        },
        _ => {},
    }
}

/// That a module has debug information that was not kept is noted exactly when
/// debug information is neither generated nor kept, and a custom section whose
/// name begins with `.debug_` comes.
pub proof fn unparsed_debug_information_is_noted(
    env: EnvView,
    config: WasmTranslationConfig,
    features: WasmFeatures,
    offset: u64,
    data: Seq<u8>,
)
    requires
        env.result == TranslationView::empty(),
    ensures
        run(env, config, features, offset, data) matches Outcome::Next(state) ==> (
        state.env.result.debug.has_unparsed <==> !config.generate_native_debuginfo
            && !config.parse_wasm_debuginfo && has_debug_section(payloads(offset, data))),
{
    lemma_noted(
        RunView { env, accepted: Seq::empty() },
        config,
        features,
        payloads(offset, data),
    );
}

/// [`unparsed_debug_information_is_noted`], for payloads that come in any state.
proof fn lemma_noted(
    start: RunView,
    config: WasmTranslationConfig,
    features: WasmFeatures,
    found: Seq<Result<RawView, ReadErrorView>>,
)
    ensures
        fold(start, found, run_steps(config, features)) matches Outcome::Next(state) ==> (
        state.env.result.debug.has_unparsed <==> start.env.result.debug.has_unparsed || (
        !config.generate_native_debuginfo && !config.parse_wasm_debuginfo && has_debug_section(
            found,
        ))),
    decreases found.len(),
{
    if found.len() > 0 {
        let steps = run_steps(config, features);
        let rest = found.drop_last();
        lemma_noted(start, config, features, rest);
        if let Outcome::Next(state) = fold(start, rest, steps) {
            if let Ok(raw) = found.last() {
                let taken = taken_payload(state, features, raw);
                if let PayloadView::CustomSection { name, data } = taken {
                    skipped_debug_sections_are_noted(state.env.result.debug, config, name, data);
                } else {
                    reveal_strlit("name");
                    reveal_strlit(".debug_");
                    only_custom_sections_change_debug_sections(
                        state.env,
                        config,
                        features.memory64,
                        taken,
                    );
                }
            }
        }
        assert(has_debug_section(found) <==> has_debug_section(rest) || is_debug_section(
            found.last(),
        )) by {
            if has_debug_section(rest) {
                let i = choose|i: int| 0 <= i < rest.len() && is_debug_section(#[trigger] rest[i]);
                assert(is_debug_section(found[i]));
            }
            if has_debug_section(found) && !is_debug_section(found.last()) {
                let i = choose|i: int|
                    0 <= i < found.len() && is_debug_section(#[trigger] found[i]);
                assert(is_debug_section(rest[i]));
            }
        }
    }
}

/// Whether `new` differs from `old` in that the place `slot` holds `data`: other
/// sections stay, and the lists of ranges and of locations hold the sections
/// that they are made of.
pub open spec fn holds_one_more(
    old: Map<DwarfSlot, Seq<u8>>,
    new: Map<DwarfSlot, Seq<u8>>,
    slot: DwarfSlot,
    data: Seq<u8>,
) -> bool {
    &&& new.contains_key(slot)
    &&& new[slot] == data
    &&& new[DwarfSlot::RangesRanges] == new[DwarfSlot::Ranges]
    &&& new[DwarfSlot::RangesRngLists] == new[DwarfSlot::RngLists]
    &&& new[DwarfSlot::LocationsLoc] == new[DwarfSlot::Loc]
    &&& new[DwarfSlot::LocationsLocLists] == new[DwarfSlot::LocLists]
    &&& forall|other: DwarfSlot|
        other != slot && other != DwarfSlot::RangesRanges && other != DwarfSlot::RangesRngLists
            && other != DwarfSlot::LocationsLoc && other != DwarfSlot::LocationsLocLists ==> (
        #[trigger] new.contains_key(other) <==> old.contains_key(other)) && new[other]
            == old[other]
}

/// Whether `after` differs from `env` in that the place `slot` for debug sections
/// holds `data`.
pub open spec fn keeps_section(
    env: EnvView,
    outcome: Outcome<EnvView>,
    slot: DwarfSlot,
    data: Seq<u8>,
) -> bool {
    &&& outcome matches Outcome::Next(after)
    &&& holds_one_more(env.result.debug.sections, after.result.debug.sections, slot, data)
    &&& after == (EnvView {
        result: TranslationView {
            debug: DebugView {
                sections: after.result.debug.sections,
                ..env.result.debug
            },
            ..env.result
        },
        ..env
    })
}

/// The place of a section that is known is found by its name.
proof fn lemma_slots()
    ensures
        slot_of(".debug_abbrev"@) == Some(DwarfSlot::Abbrev),
        begins_with(".debug_abbrev"@, ".debug_"@),
        slot_of(".debug_addr"@) == Some(DwarfSlot::Addr),
        begins_with(".debug_addr"@, ".debug_"@),
        slot_of(".debug_info"@) == Some(DwarfSlot::Info),
        begins_with(".debug_info"@, ".debug_"@),
        slot_of(".debug_line"@) == Some(DwarfSlot::Line),
        begins_with(".debug_line"@, ".debug_"@),
        slot_of(".debug_line_str"@) == Some(DwarfSlot::LineStr),
        begins_with(".debug_line_str"@, ".debug_"@),
        slot_of(".debug_str"@) == Some(DwarfSlot::Str),
        begins_with(".debug_str"@, ".debug_"@),
        slot_of(".debug_str_offsets"@) == Some(DwarfSlot::StrOffsets),
        begins_with(".debug_str_offsets"@, ".debug_"@),
        slot_of(".debug_str_sup"@) == Some(DwarfSlot::StrSup),
        begins_with(".debug_str_sup"@, ".debug_"@),
        slot_of(".debug_types"@) == Some(DwarfSlot::Types),
        begins_with(".debug_types"@, ".debug_"@),
        slot_of(".debug_loc"@) == Some(DwarfSlot::Loc),
        begins_with(".debug_loc"@, ".debug_"@),
        slot_of(".debug_loclists"@) == Some(DwarfSlot::LocLists),
        begins_with(".debug_loclists"@, ".debug_"@),
        slot_of(".debug_ranges"@) == Some(DwarfSlot::Ranges),
        begins_with(".debug_ranges"@, ".debug_"@),
        slot_of(".debug_rnglists"@) == Some(DwarfSlot::RngLists),
        begins_with(".debug_rnglists"@, ".debug_"@),
{
    reveal_strlit(".debug_");
    reveal_strlit(".debug_abbrev");
    reveal_strlit(".debug_addr");
    reveal_strlit(".debug_info");
    reveal_strlit(".debug_line");
    reveal_strlit(".debug_line_str");
    reveal_strlit(".debug_str");
    reveal_strlit(".debug_str_offsets");
    reveal_strlit(".debug_str_sup");
    reveal_strlit(".debug_types");
    reveal_strlit(".debug_loc");
    reveal_strlit(".debug_loclists");
    reveal_strlit(".debug_ranges");
    reveal_strlit(".debug_rnglists");
    assert(".debug_abbrev"@.take(7) =~= ".debug_"@);
    assert(".debug_addr"@.take(7) =~= ".debug_"@);
    assert(".debug_info"@.take(7) =~= ".debug_"@);
    assert(".debug_line"@.take(7) =~= ".debug_"@);
    assert(".debug_line_str"@.take(7) =~= ".debug_"@);
    assert(".debug_str"@.take(7) =~= ".debug_"@);
    assert(".debug_str_offsets"@.take(7) =~= ".debug_"@);
    assert(".debug_str_sup"@.take(7) =~= ".debug_"@);
    assert(".debug_types"@.take(7) =~= ".debug_"@);
    assert(".debug_loc"@.take(7) =~= ".debug_"@);
    assert(".debug_loclists"@.take(7) =~= ".debug_"@);
    assert(".debug_ranges"@.take(7) =~= ".debug_"@);
    assert(".debug_rnglists"@.take(7) =~= ".debug_"@);
    assert(".debug_abbrev"@.len() != ".debug_addr"@.len());
    assert(".debug_abbrev"@.len() != ".debug_info"@.len());
    assert(".debug_abbrev"@.len() != ".debug_line"@.len());
    assert(".debug_abbrev"@.len() != ".debug_line_str"@.len());
    assert(".debug_abbrev"@.len() != ".debug_str"@.len());
    assert(".debug_abbrev"@.len() != ".debug_str_offsets"@.len());
    assert(".debug_abbrev"@.len() != ".debug_str_sup"@.len());
    assert(".debug_abbrev"@.len() != ".debug_types"@.len());
    assert(".debug_abbrev"@.len() != ".debug_loc"@.len());
    assert(".debug_abbrev"@.len() != ".debug_loclists"@.len());
    assert(".debug_abbrev"@[7] != ".debug_ranges"@[7]);
    assert(".debug_abbrev"@.len() != ".debug_rnglists"@.len());
    assert(".debug_addr"@[7] != ".debug_info"@[7]);
    assert(".debug_addr"@[7] != ".debug_line"@[7]);
    assert(".debug_addr"@.len() != ".debug_line_str"@.len());
    assert(".debug_addr"@.len() != ".debug_str"@.len());
    assert(".debug_addr"@.len() != ".debug_str_offsets"@.len());
    assert(".debug_addr"@.len() != ".debug_str_sup"@.len());
    assert(".debug_addr"@.len() != ".debug_types"@.len());
    assert(".debug_addr"@.len() != ".debug_loc"@.len());
    assert(".debug_addr"@.len() != ".debug_loclists"@.len());
    assert(".debug_addr"@.len() != ".debug_ranges"@.len());
    assert(".debug_addr"@.len() != ".debug_rnglists"@.len());
    assert(".debug_info"@[7] != ".debug_line"@[7]);
    assert(".debug_info"@.len() != ".debug_line_str"@.len());
    assert(".debug_info"@.len() != ".debug_str"@.len());
    assert(".debug_info"@.len() != ".debug_str_offsets"@.len());
    assert(".debug_info"@.len() != ".debug_str_sup"@.len());
    assert(".debug_info"@.len() != ".debug_types"@.len());
    assert(".debug_info"@.len() != ".debug_loc"@.len());
    assert(".debug_info"@.len() != ".debug_loclists"@.len());
    assert(".debug_info"@.len() != ".debug_ranges"@.len());
    assert(".debug_info"@.len() != ".debug_rnglists"@.len());
    assert(".debug_line"@.len() != ".debug_line_str"@.len());
    assert(".debug_line"@.len() != ".debug_str"@.len());
    assert(".debug_line"@.len() != ".debug_str_offsets"@.len());
    assert(".debug_line"@.len() != ".debug_str_sup"@.len());
    assert(".debug_line"@.len() != ".debug_types"@.len());
    assert(".debug_line"@.len() != ".debug_loc"@.len());
    assert(".debug_line"@.len() != ".debug_loclists"@.len());
    assert(".debug_line"@.len() != ".debug_ranges"@.len());
    assert(".debug_line"@.len() != ".debug_rnglists"@.len());
    assert(".debug_line_str"@.len() != ".debug_str"@.len());
    assert(".debug_line_str"@.len() != ".debug_str_offsets"@.len());
    assert(".debug_line_str"@.len() != ".debug_str_sup"@.len());
    assert(".debug_line_str"@.len() != ".debug_types"@.len());
    assert(".debug_line_str"@.len() != ".debug_loc"@.len());
    assert(".debug_line_str"@[8] != ".debug_loclists"@[8]);
    assert(".debug_line_str"@.len() != ".debug_ranges"@.len());
    assert(".debug_line_str"@[7] != ".debug_rnglists"@[7]);
    assert(".debug_str"@.len() != ".debug_str_offsets"@.len());
    assert(".debug_str"@.len() != ".debug_str_sup"@.len());
    assert(".debug_str"@.len() != ".debug_types"@.len());
    assert(".debug_str"@[7] != ".debug_loc"@[7]);
    assert(".debug_str"@.len() != ".debug_loclists"@.len());
    assert(".debug_str"@.len() != ".debug_ranges"@.len());
    assert(".debug_str"@.len() != ".debug_rnglists"@.len());
    assert(".debug_str_offsets"@.len() != ".debug_str_sup"@.len());
    assert(".debug_str_offsets"@.len() != ".debug_types"@.len());
    assert(".debug_str_offsets"@.len() != ".debug_loc"@.len());
    assert(".debug_str_offsets"@.len() != ".debug_loclists"@.len());
    assert(".debug_str_offsets"@.len() != ".debug_ranges"@.len());
    assert(".debug_str_offsets"@.len() != ".debug_rnglists"@.len());
    assert(".debug_str_sup"@.len() != ".debug_types"@.len());
    assert(".debug_str_sup"@.len() != ".debug_loc"@.len());
    assert(".debug_str_sup"@.len() != ".debug_loclists"@.len());
    assert(".debug_str_sup"@.len() != ".debug_ranges"@.len());
    assert(".debug_str_sup"@.len() != ".debug_rnglists"@.len());
    assert(".debug_types"@.len() != ".debug_loc"@.len());
    assert(".debug_types"@.len() != ".debug_loclists"@.len());
    assert(".debug_types"@.len() != ".debug_ranges"@.len());
    assert(".debug_types"@.len() != ".debug_rnglists"@.len());
    assert(".debug_loc"@.len() != ".debug_loclists"@.len());
    assert(".debug_loc"@.len() != ".debug_ranges"@.len());
    assert(".debug_loc"@.len() != ".debug_rnglists"@.len());
    assert(".debug_loclists"@.len() != ".debug_ranges"@.len());
    assert(".debug_loclists"@[7] != ".debug_rnglists"@[7]);
    assert(".debug_ranges"@.len() != ".debug_rnglists"@.len());
}

/// A debug section that is kept goes to the place for sections of its name, and
/// to no other.
pub proof fn debug_sections_are_kept_by_their_names(
    env: EnvView,
    config: WasmTranslationConfig,
    memory64: bool,
    data: Seq<u8>,
)
    requires
        config.generate_native_debuginfo || config.parse_wasm_debuginfo,
    ensures
        keeps_section(
            env,
            payload_step(
                env,
                config,
                memory64,
                PayloadView::CustomSection { name: ".debug_abbrev"@, data },
            ),
            DwarfSlot::Abbrev,
            data,
        ),
        keeps_section(
            env,
            payload_step(
                env,
                config,
                memory64,
                PayloadView::CustomSection { name: ".debug_addr"@, data },
            ),
            DwarfSlot::Addr,
            data,
        ),
        keeps_section(
            env,
            payload_step(
                env,
                config,
                memory64,
                PayloadView::CustomSection { name: ".debug_info"@, data },
            ),
            DwarfSlot::Info,
            data,
        ),
        keeps_section(
            env,
            payload_step(
                env,
                config,
                memory64,
                PayloadView::CustomSection { name: ".debug_line"@, data },
            ),
            DwarfSlot::Line,
            data,
        ),
        keeps_section(
            env,
            payload_step(
                env,
                config,
                memory64,
                PayloadView::CustomSection { name: ".debug_line_str"@, data },
            ),
            DwarfSlot::LineStr,
            data,
        ),
        keeps_section(
            env,
            payload_step(
                env,
                config,
                memory64,
                PayloadView::CustomSection { name: ".debug_str"@, data },
            ),
            DwarfSlot::Str,
            data,
        ),
        keeps_section(
            env,
            payload_step(
                env,
                config,
                memory64,
                PayloadView::CustomSection { name: ".debug_str_offsets"@, data },
            ),
            DwarfSlot::StrOffsets,
            data,
        ),
        keeps_section(
            env,
            payload_step(
                env,
                config,
                memory64,
                PayloadView::CustomSection { name: ".debug_str_sup"@, data },
            ),
            DwarfSlot::StrSup,
            data,
        ),
        keeps_section(
            env,
            payload_step(
                env,
                config,
                memory64,
                PayloadView::CustomSection { name: ".debug_types"@, data },
            ),
            DwarfSlot::Types,
            data,
        ),
        keeps_section(
            env,
            payload_step(
                env,
                config,
                memory64,
                PayloadView::CustomSection { name: ".debug_loc"@, data },
            ),
            DwarfSlot::Loc,
            data,
        ),
        keeps_section(
            env,
            payload_step(
                env,
                config,
                memory64,
                PayloadView::CustomSection { name: ".debug_loclists"@, data },
            ),
            DwarfSlot::LocLists,
            data,
        ),
        keeps_section(
            env,
            payload_step(
                env,
                config,
                memory64,
                PayloadView::CustomSection { name: ".debug_ranges"@, data },
            ),
            DwarfSlot::Ranges,
            data,
        ),
        keeps_section(
            env,
            payload_step(
                env,
                config,
                memory64,
                PayloadView::CustomSection { name: ".debug_rnglists"@, data },
            ),
            DwarfSlot::RngLists,
            data,
        ),
{
    lemma_slots();
    lemma_kept(env, config, memory64, ".debug_abbrev"@, DwarfSlot::Abbrev, data);
    lemma_kept(env, config, memory64, ".debug_addr"@, DwarfSlot::Addr, data);
    lemma_kept(env, config, memory64, ".debug_info"@, DwarfSlot::Info, data);
    lemma_kept(env, config, memory64, ".debug_line"@, DwarfSlot::Line, data);
    lemma_kept(env, config, memory64, ".debug_line_str"@, DwarfSlot::LineStr, data);
    lemma_kept(env, config, memory64, ".debug_str"@, DwarfSlot::Str, data);
    lemma_kept(env, config, memory64, ".debug_str_offsets"@, DwarfSlot::StrOffsets, data);
    lemma_kept(env, config, memory64, ".debug_str_sup"@, DwarfSlot::StrSup, data);
    lemma_kept(env, config, memory64, ".debug_types"@, DwarfSlot::Types, data);
    lemma_kept(env, config, memory64, ".debug_loc"@, DwarfSlot::Loc, data);
    lemma_kept(env, config, memory64, ".debug_loclists"@, DwarfSlot::LocLists, data);
    lemma_kept(env, config, memory64, ".debug_ranges"@, DwarfSlot::Ranges, data);
    lemma_kept(env, config, memory64, ".debug_rnglists"@, DwarfSlot::RngLists, data);
}

/// A section that has a place is kept there.
proof fn lemma_kept(
    env: EnvView,
    config: WasmTranslationConfig,
    memory64: bool,
    name: Seq<char>,
    slot: DwarfSlot,
    data: Seq<u8>,
)
    requires
        config.generate_native_debuginfo || config.parse_wasm_debuginfo,
        slot_of(name) == Some(slot),
        begins_with(name, ".debug_"@),
    ensures
        keeps_section(
            env,
            payload_step(env, config, memory64, PayloadView::CustomSection { name, data }),
            slot,
            data,
        ),
{
}

/// Whether a section of this name is kept if debug sections are.
pub open spec fn is_kept_name(name: Seq<char>) -> bool {
    ||| name == ".debug_abbrev"@
    ||| name == ".debug_addr"@
    ||| name == ".debug_info"@
    ||| name == ".debug_line"@
    ||| name == ".debug_line_str"@
    ||| name == ".debug_str"@
    ||| name == ".debug_str_offsets"@
    ||| name == ".debug_str_sup"@
    ||| name == ".debug_types"@
    ||| name == ".debug_loc"@
    ||| name == ".debug_loclists"@
    ||| name == ".debug_ranges"@
    ||| name == ".debug_rnglists"@
}

/// A custom section whose name does not begin with `.debug_` changes nothing.
/// Where debug sections are not kept, one is noted and nothing else changes.
/// Where they are, three of them are known and not used, and any other that is
/// not kept is one more warning, with its name.
pub proof fn other_custom_sections_change_nothing(
    env: EnvView,
    config: WasmTranslationConfig,
    memory64: bool,
    name: Seq<char>,
    data: Seq<u8>,
)
    ensures
        ({
            let outcome = payload_step(
                env,
                config,
                memory64,
                PayloadView::CustomSection { name, data },
            );
            let is_debug = name.len() >= 7 && name.take(7) == ".debug_"@;
            if !is_debug {
                outcome == Outcome::Next(env)
            } else if !config.generate_native_debuginfo && !config.parse_wasm_debuginfo {
                outcome == (Outcome::Next(
                    EnvView {
                        result: TranslationView {
                            debug: DebugView { has_unparsed: true, ..env.result.debug },
                            ..env.result
                        },
                        ..env
                    },
                ))
            } else if name == ".debug_aranges"@ || name == ".debug_pubnames"@ || name
                == ".debug_pubtypes"@ {
                outcome == Outcome::Next(env)
            } else if !is_kept_name(name) {
                outcome == (Outcome::Next(
                    EnvView {
                        warnings: env.warnings.push(WarningView::UnknownDebugSection(name)),
                        ..env
                    },
                ))
            } else {
                outcome is Next
            }
        }),
{
    reveal_strlit(".debug_");
    reveal_strlit(".debug_abbrev");
    reveal_strlit(".debug_addr");
    reveal_strlit(".debug_info");
    reveal_strlit(".debug_line");
    reveal_strlit(".debug_line_str");
    reveal_strlit(".debug_str");
    reveal_strlit(".debug_str_offsets");
    reveal_strlit(".debug_str_sup");
    reveal_strlit(".debug_types");
    reveal_strlit(".debug_loc");
    reveal_strlit(".debug_loclists");
    reveal_strlit(".debug_ranges");
    reveal_strlit(".debug_rnglists");
    reveal_strlit(".debug_aranges");
    reveal_strlit(".debug_pubnames");
    reveal_strlit(".debug_pubtypes");
    assert(".debug_aranges"@.len() != ".debug_abbrev"@.len());
    assert(".debug_aranges"@.len() != ".debug_addr"@.len());
    assert(".debug_aranges"@.len() != ".debug_info"@.len());
    assert(".debug_aranges"@.len() != ".debug_line"@.len());
    assert(".debug_aranges"@.len() != ".debug_line_str"@.len());
    assert(".debug_aranges"@.len() != ".debug_str"@.len());
    assert(".debug_aranges"@.len() != ".debug_str_offsets"@.len());
    assert(".debug_aranges"@[7] != ".debug_str_sup"@[7]);
    assert(".debug_aranges"@.len() != ".debug_types"@.len());
    assert(".debug_aranges"@.len() != ".debug_loc"@.len());
    assert(".debug_aranges"@.len() != ".debug_loclists"@.len());
    assert(".debug_aranges"@.len() != ".debug_ranges"@.len());
    assert(".debug_aranges"@.len() != ".debug_rnglists"@.len());
    assert(".debug_pubnames"@.len() != ".debug_abbrev"@.len());
    assert(".debug_pubnames"@.len() != ".debug_addr"@.len());
    assert(".debug_pubnames"@.len() != ".debug_info"@.len());
    assert(".debug_pubnames"@.len() != ".debug_line"@.len());
    assert(".debug_pubnames"@[7] != ".debug_line_str"@[7]);
    assert(".debug_pubnames"@.len() != ".debug_str"@.len());
    assert(".debug_pubnames"@.len() != ".debug_str_offsets"@.len());
    assert(".debug_pubnames"@.len() != ".debug_str_sup"@.len());
    assert(".debug_pubnames"@.len() != ".debug_types"@.len());
    assert(".debug_pubnames"@.len() != ".debug_loc"@.len());
    assert(".debug_pubnames"@[7] != ".debug_loclists"@[7]);
    assert(".debug_pubnames"@.len() != ".debug_ranges"@.len());
    assert(".debug_pubnames"@[7] != ".debug_rnglists"@[7]);
    assert(".debug_pubtypes"@.len() != ".debug_abbrev"@.len());
    assert(".debug_pubtypes"@.len() != ".debug_addr"@.len());
    assert(".debug_pubtypes"@.len() != ".debug_info"@.len());
    assert(".debug_pubtypes"@.len() != ".debug_line"@.len());
    assert(".debug_pubtypes"@[7] != ".debug_line_str"@[7]);
    assert(".debug_pubtypes"@.len() != ".debug_str"@.len());
    assert(".debug_pubtypes"@.len() != ".debug_str_offsets"@.len());
    assert(".debug_pubtypes"@.len() != ".debug_str_sup"@.len());
    assert(".debug_pubtypes"@.len() != ".debug_types"@.len());
    assert(".debug_pubtypes"@.len() != ".debug_loc"@.len());
    assert(".debug_pubtypes"@[7] != ".debug_loclists"@[7]);
    assert(".debug_pubtypes"@.len() != ".debug_ranges"@.len());
    assert(".debug_pubtypes"@[7] != ".debug_rnglists"@[7]);
}

} // verus!

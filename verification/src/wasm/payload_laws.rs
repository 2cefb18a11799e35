//! How the payloads of an input are taken.
use vstd::prelude::*;

use super::body_laws::only_function_bodies_add_bodies;
use super::debuginfo::WasmTranslationConfig;
use super::error::{
    entries_after_the_end_are_ignored, fold, lemma_fold_entry, lemma_fold_next_keeps, ErrorView,
    Outcome, ReadErrorView,
};
use super::module_env::{payload_step, run, run_step, run_steps, translation, EnvView, RunView};
use super::offsets::{
    can_be_read, lemma_one_limit, limit, lemma_number_bounds, place_after, place_of, section_head,
    Place,
};
use super::parser::{declared_types, name_subsections, payloads, validation};
use super::payload::{
    BodyView, DeclaredTypeView, ElementView, Encoding, ExportView, FuncView, GlobalEntryView,
    ImportView, LocalsView, PayloadView, TableEntryView,
};
use super::raw::{ContentView, RawView, ValidView, ValidatorView, WasmFeatures};
use super::reader::{complete, custom_payload};
use super::run_laws::taken_payload;
use super::translation::TranslationView;
use super::types::MemoryPlan;

verus! {

/// A section of the input is taken with all its entries, whatever the validator
/// handed out for it.
pub proof fn sections_are_taken_with_their_entries(
    valid: ValidView,
    declared: Seq<DeclaredTypeView>,
    imports: Seq<Result<ImportView, ReadErrorView>>,
    functions: Seq<Result<u32, ReadErrorView>>,
    tables: Seq<Result<TableEntryView, ReadErrorView>>,
    memories: Seq<Result<MemoryPlan, ReadErrorView>>,
    globals: Seq<Result<GlobalEntryView, ReadErrorView>>,
    exports: Seq<Result<ExportView, ReadErrorView>>,
    elements: Seq<Result<ElementView, ReadErrorView>>,
    segments: Seq<Result<Seq<u8>, ReadErrorView>>,
)
    ensures
        complete(ContentView::ImportSection(imports), valid, declared)
            == PayloadView::ImportSection(imports),
        complete(ContentView::FunctionSection(functions), valid, declared)
            == PayloadView::FunctionSection(functions),
        complete(ContentView::TableSection(tables), valid, declared) == PayloadView::TableSection(
            tables,
        ),
        complete(ContentView::MemorySection(memories), valid, declared)
            == PayloadView::MemorySection(memories),
        complete(ContentView::GlobalSection(globals), valid, declared)
            == PayloadView::GlobalSection(globals),
        complete(ContentView::ExportSection(exports), valid, declared)
            == PayloadView::ExportSection(exports),
        complete(ContentView::ElementSection(elements), valid, declared)
            == PayloadView::ElementSection(elements),
        complete(ContentView::DataSection(segments), valid, declared) == PayloadView::DataSection(
            segments,
        ),
        complete(ContentView::TagSection, valid, declared) is TagSection,
        complete(ContentView::DataCountSection, valid, declared) is DataCountSection,
        complete(ContentView::Other, valid, declared) is Other,
{
}

/// Other payloads are taken with what they say, with what the validator handed
/// out for a function body or for the end, and with the types that it knows.
pub proof fn payloads_are_taken_with_what_the_validator_says(
    valid: ValidView,
    declared: Seq<DeclaredTypeView>,
    encoding: Encoding,
    func: u32,
    start: usize,
    count: u32,
    body: BodyView,
    locals: LocalsView,
    validator: FuncView,
    types: Seq<DeclaredTypeView>,
)
    ensures
        complete(ContentView::Version { encoding }, valid, declared) == (PayloadView::Version {
            encoding,
        }),
        complete(ContentView::StartSection { func }, valid, declared) == (
        PayloadView::StartSection { func }),
        complete(ContentView::CodeSectionStart { start, count }, valid, declared) == (
        PayloadView::CodeSectionStart { start }),
        complete(
            ContentView::CodeSectionEntry { body, locals },
            ValidView::Func(validator),
            declared,
        ) == (PayloadView::CodeSectionEntry { body, validator, locals }),
        complete(ContentView::End, ValidView::End(types), declared) == (PayloadView::End { types }),
        ({
            let taken = complete(ContentView::TypeSection { count }, valid, declared);
            &&& taken is TypeSection
            &&& taken->TypeSection_0.len() == count
            &&& forall|i: int|
                0 <= i < count ==> #[trigger] taken->TypeSection_0[i] == (if i < declared.len() {
                    Some(declared[i])
                } else {
                    None
                })
        }),
{
}

/// A custom section of the name `name` has the names of the module; any other is
/// taken with its name and its bytes.
pub proof fn the_custom_section_with_the_names_is_told_by_its_name(
    name: Seq<char>,
    data: Seq<u8>,
    offset: usize,
    valid: ValidView,
    declared: Seq<DeclaredTypeView>,
)
    ensures
        name != "name"@ ==> custom_payload(name, data, offset) == (PayloadView::CustomSection {
            name,
            data,
        }),
        name == "name"@ && offset + data.len() <= usize::MAX ==> custom_payload(name, data, offset)
            == PayloadView::NameSection(name_subsections(data, offset)),
        complete(ContentView::CustomSection { name, data, offset }, valid, declared)
            == custom_payload(name, data, offset),
{
}

/// What the run comes to when the environment comes to `outcome`, and the
/// payloads in `accepted` are accepted.
pub open spec fn is_run_of(
    run: Outcome<RunView>,
    outcome: Outcome<EnvView>,
    accepted: Seq<RawView>,
) -> bool {
    match outcome {
        Outcome::Next(env) => run == Outcome::Next(RunView { env, accepted }),
        Outcome::Fails(env, error) => run == Outcome::Fails(RunView { env, accepted }, error),
        Outcome::Halts => run is Halts,
    }
}

/// A payload of the input is translated, with the features of the validator,
/// after the validator has accepted it behind all that it accepted before; one
/// that the validator refuses ends the translation with its error. Custom
/// sections are translated without it.
pub proof fn a_payload_is_validated_and_translated(
    state: RunView,
    config: WasmTranslationConfig,
    features: WasmFeatures,
    raw: RawView,
)
    ensures
        ({
            let outcome = run_step(state, config, features, raw);
            match raw.content {
                ContentView::CustomSection { name, data, offset } => is_run_of(
                    outcome,
                    payload_step(
                        state.env,
                        config,
                        features.memory64,
                        custom_payload(name, data, offset),
                    ),
                    state.accepted,
                ),
                _ => match validation(
                    ValidatorView { features, accepted: state.accepted },
                    raw,
                ) {
                    Err(error) => outcome == (Outcome::Fails(
                        state,
                        ErrorView::InvalidWebAssembly {
                            message: error.message,
                            offset: error.offset,
                        },
                    )),
                    Ok(valid) => is_run_of(
                        outcome,
                        payload_step(
                            state.env,
                            config,
                            features.memory64,
                            complete(
                                raw.content,
                                valid,
                                declared_types(
                                    ValidatorView {
                                        features,
                                        accepted: state.accepted.push(raw),
                                    },
                                ),
                            ),
                        ),
                        state.accepted.push(raw),
                    ),
                },
            }
        }),
{
}

/// A payload that cannot be read ends the translation with what was wrong and
/// where, when the payloads before it went on.
pub proof fn a_payload_that_cannot_be_read_is_an_error(
    env: EnvView,
    config: WasmTranslationConfig,
    features: WasmFeatures,
    offset: u64,
    data: Seq<u8>,
    k: int,
    state: RunView,
    error: ReadErrorView,
)
    requires
        0 <= k < payloads(offset, data).len(),
        fold(
            RunView { env, accepted: Seq::empty() },
            payloads(offset, data).take(k),
            run_steps(config, features),
        ) == Outcome::Next(state),
        payloads(offset, data)[k] == Err::<RawView, ReadErrorView>(error),
    ensures
        run(env, config, features, offset, data) == (Outcome::Fails(
            state,
            ErrorView::InvalidWebAssembly { message: error.message, offset: error.offset },
        )),
{
    let start = RunView { env, accepted: Seq::empty() };
    lemma_fold_entry(start, payloads(offset, data), k, run_steps(config, features), state);
}

/// An input that starts as a module is read to its end, if the offset at which
/// it starts leaves room for the largest length that can be announced. Of any
/// other input only the header is read.
pub proof fn ordinary_inputs_can_be_read(offset: u64, data: Seq<u8>)
    ensures
        data.len() >= 8 && data[6] == 0 && data[7] == 0 && offset + data.len() + 0xffff_ffff
            <= usize::MAX ==> limit(offset, data) is None,
        data.len() < 8 || data[6] != 0 || data[7] != 0 ==> limit(offset, data) == Some(1usize),
{
    assert(place_of(data, 0) is Header);
    assert(place_of(data, 1) == place_after(data, place_of(data, 0)));
    if data.len() < 8 || data[6] != 0 || data[7] != 0 {
        assert forall|k: nat| k < 1 implies can_be_read(
            offset,
            data,
            #[trigger] place_of(data, k),
        ) by {}
        lemma_one_limit(offset, data, Some(1usize));
    } else if offset + data.len() + 0xffff_ffff <= usize::MAX {
        assert forall|k: nat| can_be_read(offset, data, #[trigger] place_of(data, k)) by {
            lemma_place_in_input(data, k);
            match place_of(data, k) {
                Place::Section { at } => {
                    lemma_number_bounds(data, at + 1, 0);
                    if let Some((id, length, start)) = section_head(data, at) {
                        lemma_number_bounds(data, start, 0);
                    }
                },
                Place::Body { at, remaining, length } => {
                    lemma_number_bounds(data, at, 0);
                },
                _ => {},
            }
        }
        lemma_one_limit(offset, data, None);
    }
}

/// A payload of a module starts in the input.
proof fn lemma_place_in_input(data: Seq<u8>, k: nat)
    requires
        data.len() >= 8,
        data[6] == 0,
        data[7] == 0,
    ensures
        match place_of(data, k) {
            Place::Header => true,
            Place::Foreign => false,
            Place::Section { at } => 0 <= at <= data.len(),
            Place::Body { at, remaining, length } => 0 <= at <= data.len(),
            Place::Done => true,
        },
    decreases k,
{
    if k > 0 {
        lemma_place_in_input(data, (k - 1) as nat);
        match place_of(data, (k - 1) as nat) {
            Place::Section { at } => {
                lemma_number_bounds(data, at + 1, 0);
                if let Some((id, length, start)) = section_head(data, at) {
                    lemma_number_bounds(data, start, 0);
                }
            },
            Place::Body { at, remaining, length } => {
                lemma_number_bounds(data, at, 0);
            },
            _ => {},
        }
    }
}

/// The payloads of a module are taken one after the other, from an environment
/// for which no payload is accepted yet: no payloads leave it as it is, and one
/// more is taken in the state that those before it came to.
pub proof fn payloads_are_taken_one_after_the_other(
    env: EnvView,
    config: WasmTranslationConfig,
    features: WasmFeatures,
    offset: u64,
    data: Seq<u8>,
    found: Seq<Result<RawView, ReadErrorView>>,
    raw: RawView,
)
    ensures
        ({
            let start = RunView { env, accepted: Seq::empty() };
            let steps = run_steps(config, features);
            &&& run(env, config, features, offset, data) == fold(
                start,
                payloads(offset, data),
                steps,
            )
            &&& fold(start, Seq::empty(), steps) == Outcome::Next(start)
            &&& fold(start, found.push(Ok(raw)), steps) == (match fold(start, found, steps) {
                Outcome::Next(state) => run_step(state, config, features, raw),
                stuck => stuck,
            })
        }),
{
    assert(found.push(Ok(raw)).drop_last() =~= found);
}

/// A translation comes to what the payloads come to, if the module starts at an
/// offset that leaves room for the largest length that can be announced. It also
/// does if one of the payloads before the first that cannot be read ends it.
pub proof fn a_translation_is_what_the_payloads_come_to(
    env: EnvView,
    config: WasmTranslationConfig,
    features: WasmFeatures,
    offset: u64,
    data: Seq<u8>,
    n: usize,
)
    ensures
        data.len() >= 8 && data[6] == 0 && data[7] == 0 && offset + data.len() + 0xffff_ffff
            <= usize::MAX ==> translation(env, config, features, offset, data) == run(
            env,
            config,
            features,
            offset,
            data,
        ),
        offset + data.len() <= usize::MAX && limit(offset, data) == Some(n) ==> {
            let all = payloads(offset, data);
            let first = if n < all.len() {
                all.take(n as int)
            } else {
                all
            };
            let outcome = fold(
                RunView { env, accepted: Seq::empty() },
                first,
                run_steps(config, features),
            );
            translation(env, config, features, offset, data) == if outcome is Next {
                Outcome::Halts
            } else {
                outcome
            }
        },
        offset + data.len() > usize::MAX ==> translation(
            env,
            config,
            features,
            offset,
            data,
        ) is Halts,
{
    ordinary_inputs_can_be_read(offset, data);
    let all = payloads(offset, data);
    let start = RunView { env, accepted: Seq::empty() };
    let steps = run_steps(config, features);
    if n < all.len() && !(fold(start, all.take(n as int), steps) is Next) {
        entries_after_the_end_are_ignored(start, all, n as int, steps);
    }
}

/// Whether the bodies of `t` allow 64-bit memory offsets as `memory64` says.
spec fn bodies_allow(t: TranslationView, memory64: bool) -> bool {
    forall|i: int|
        0 <= i < t.bodies.len() ==> (#[trigger] t.bodies[i]).body.memarg64 == memory64
}

/// The function bodies of a translated module allow 64-bit memory offsets
/// exactly if the features do.
pub proof fn bodies_allow_what_the_features_allow(
    env: EnvView,
    config: WasmTranslationConfig,
    features: WasmFeatures,
    offset: u64,
    data: Seq<u8>,
)
    requires
        env.result == TranslationView::empty(),
    ensures
        run(env, config, features, offset, data) matches Outcome::Next(state) ==> forall|i: int|
            0 <= i < state.env.result.bodies.len() ==> (
            #[trigger] state.env.result.bodies[i]).body.memarg64 == features.memory64,
{
    let keeps = |state: RunView| bodies_allow(state.env.result, features.memory64);
    let steps = run_steps(config, features);
    assert forall|state: RunView, raw: RawView| keeps(state) implies (#[trigger] steps(
        state,
        raw,
    ) matches Outcome::Next(after) ==> keeps(after)) by {
        let taken = taken_payload(state, features, raw);
        if !(taken is CodeSectionEntry) {
            only_function_bodies_add_bodies(
                state.env,
                config,
                features.memory64,
                taken,
            );
        }
    }
    lemma_fold_next_keeps(
        RunView { env, accepted: Seq::empty() },
        payloads(offset, data),
        steps,
        keeps,
    );
}

} // verus!

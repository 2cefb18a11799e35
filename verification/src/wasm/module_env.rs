//! The environment that a module is translated in.
use vstd::prelude::*;

use super::debuginfo::{is_unknown_section, WasmTranslationConfig};
use super::elements::element_section;
use super::error::{
    entries_after_the_end_are_ignored, fold, invalid, lemma_fold_entry, read_views, ErrorView,
    Outcome, ReadErrorView, Step, WasmError, WasmResult,
};
use super::index::{index_fits, SignatureIndex};
use super::laws::{a_new_environment_is_sound, every_module_keeps_the_environment_sound};
use super::module::{lemma_views_push, views, ModuleType, ModuleView};
use super::names::{name_section, name_section_changes_only_names};
use super::offsets::{find_limit, limit, offsets_fit};
use super::order::{
    are_of_a_module, bodies_announced, bodies_found, come_in_order, comes_in_order,
    functions_declared, lemma_counts_of_one_more, lemma_one_more_payload, to_validate,
};
use super::parser::{
    custom_part, declared_types, first_of, new_validator, parse_all, payload_view, payload_views,
    payloads, validate, validation, validator_view,
};
use super::payload::{
    declared_views, Composite, CompositeView, DeclaredType, DeclaredTypeView, Encoding,
    ModulePayload, PayloadView,
};
use super::raw::{ContentView, RawView, ValidatorView, WasmFeatures};
use super::reader::{complete, custom_payload, read_custom_section, read_payload};
use super::run_laws::{
    a_translated_module_is_complete, a_translated_module_is_initialized, has_more,
    lemma_run_step_counts,
};
use super::sections::{
    data_section, export_section, function_section, global_section, import_section, memory_section,
    start_section, table_section, with_module,
};
use super::translation::{
    with_body, with_code_section, with_custom_section, with_end, ModuleTranslation, TranslationView,
};
use super::types::{intern, FuncTypeView, ModuleTypesBuilder};
use super::warning::{copy_warnings, Warning, WarningView};

verus! {

/// What a [`ModuleEnvironment`] has come to: the translation, and the interned
/// signatures.
pub struct EnvView {
    pub result: TranslationView,
    pub signatures: Seq<FuncTypeView>,
    pub warnings: Seq<WarningView>,
}

impl EnvView {
    /// Nothing is translated yet.
    pub open spec fn fresh(signatures: Seq<FuncTypeView>, warnings: Seq<WarningView>) -> EnvView {
        EnvView { result: TranslationView::empty(), signatures, warnings }
    }

    /// What holds of an environment at every step: the translation is as it
    /// should be, and no signature is interned twice.
    pub open spec fn wf(self) -> bool {
        &&& self.result.wf()
        &&& self.signatures.no_duplicates()
    }
}

/// Whether nothing is translated yet.
pub open spec fn is_fresh(env: EnvView) -> bool {
    env.result == TranslationView::empty()
}

/// What a type of the module comes to. Only final function types without a
/// supertype are translated.
pub open spec fn declare_type(env: EnvView, ty: DeclaredTypeView) -> Outcome<EnvView> {
    if !ty.is_final || ty.has_supertype {
        Outcome::Halts
    } else {
        match ty.composite {
            CompositeView::Func(signature) => {
                let (signatures, index) = intern(env.signatures, signature);
                let module = env.result.module;
                if index_fits(index as nat) && index_fits(module.types.len()) {
                    let ty = ModuleType::Function(SignatureIndex(index as u32));
                    Outcome::Next(
                        EnvView {
                            result: with_module(
                                env.result,
                                ModuleView { types: module.types.push(ty), ..module },
                            ),
                            signatures,
                            ..env
                        },
                    )
                } else {
                    Outcome::Halts
                }
            },
            CompositeView::Array => Outcome::Halts,
            CompositeView::Struct => Outcome::Halts,
        }
    }
}

/// What an entry of the type section comes to. One that declares no type has
/// no result.
pub open spec fn type_step(env: EnvView, ty: Option<DeclaredTypeView>) -> Outcome<EnvView> {
    match ty {
        Some(ty) => declare_type(env, ty),
        None => Outcome::Halts,
    }
}

/// [`type_step`], for a fold.
pub open spec fn type_steps() -> spec_fn(EnvView, Option<DeclaredTypeView>) -> Outcome<EnvView> {
    |env: EnvView, ty: Option<DeclaredTypeView>| type_step(env, ty)
}

/// The entries of a type section, none of which can fail to be read.
pub open spec fn readable(types: Seq<Option<DeclaredTypeView>>) -> Seq<
    Result<Option<DeclaredTypeView>, ReadErrorView>,
> {
    Seq::new(types.len(), |i: int| Ok(types[i]))
}

/// What the type section comes to.
pub open spec fn type_section(env: EnvView, types: Seq<Option<DeclaredTypeView>>) -> Outcome<
    EnvView,
> {
    fold(env, readable(types), type_steps())
}

/// What an outcome for the translation is for the environment.
pub open spec fn for_result(env: EnvView, outcome: Outcome<TranslationView>) -> Outcome<EnvView> {
    match outcome {
        Outcome::Next(result) => Outcome::Next(EnvView { result, ..env }),
        Outcome::Fails(result, error) => Outcome::Fails(EnvView { result, ..env }, error),
        Outcome::Halts => Outcome::Halts,
    }
}

/// The environment after the section with the names. An error in that section
/// ends the section, not the translation: it is a warning.
pub open spec fn after_names(env: EnvView, outcome: Outcome<ModuleView>) -> Outcome<EnvView> {
    match outcome {
        Outcome::Next(module) => Outcome::Next(
            EnvView { result: with_module(env.result, module), ..env },
        ),
        Outcome::Fails(module, error) => Outcome::Next(
            EnvView {
                result: with_module(env.result, module),
                warnings: env.warnings.push(WarningView::NameSection(error)),
                ..env
            },
        ),
        Outcome::Halts => Outcome::Halts,
    }
}

/// The environment after a custom section other than the one with the names.
pub open spec fn after_custom_section(
    env: EnvView,
    config: WasmTranslationConfig,
    name: Seq<char>,
    data: Seq<u8>,
) -> EnvView {
    EnvView {
        result: with_custom_section(env.result, config, name, data),
        warnings: if is_unknown_section(config, name) {
            env.warnings.push(WarningView::UnknownDebugSection(name))
        } else {
            env.warnings
        },
        ..env
    }
}

/// What a payload comes to.
pub open spec fn payload_step(
    env: EnvView,
    config: WasmTranslationConfig,
    memory64: bool,
    payload: PayloadView,
) -> Outcome<EnvView> {
    let t = env.result;
    match payload {
        PayloadView::Version { encoding } => match encoding {
            Encoding::Module => Outcome::Next(env),
            Encoding::Component => Outcome::Fails(env, ErrorView::Unsupported("component model"@)),
        },
        PayloadView::End { types } => for_result(env, Outcome::Next(with_end(t, types))),
        PayloadView::TypeSection(types) => type_section(env, types),
        PayloadView::ImportSection(entries) => for_result(env, import_section(t, entries)),
        PayloadView::FunctionSection(entries) => for_result(env, function_section(t, entries)),
        PayloadView::TableSection(entries) => for_result(env, table_section(t, entries)),
        PayloadView::MemorySection(entries) => for_result(env, memory_section(t, entries)),
        PayloadView::TagSection => Outcome::Halts,
        PayloadView::GlobalSection(entries) => for_result(env, global_section(t, entries)),
        PayloadView::ExportSection(entries) => for_result(env, export_section(t, entries)),
        PayloadView::StartSection { func } => for_result(env, start_section(t, func)),
        PayloadView::ElementSection(entries) => for_result(env, element_section(t, entries)),
        PayloadView::CodeSectionStart { start } => for_result(
            env,
            Outcome::Next(with_code_section(t, start)),
        ),
        PayloadView::CodeSectionEntry { body, validator, locals } => for_result(
            env,
            with_body(t, env.signatures, config, memory64, body, validator, locals),
        ),
        PayloadView::DataSection(entries) => for_result(env, data_section(t, entries)),
        PayloadView::DataCountSection => Outcome::Next(env),
        PayloadView::NameSection(subsections) => after_names(
            env,
            name_section(t.module, config, subsections),
        ),
        PayloadView::CustomSection { name, data } => Outcome::Next(
            after_custom_section(env, config, name, data),
        ),
        PayloadView::Other => Outcome::Halts,
    }
}

/// How far a module has been read: what the environment has come to, and the
/// payloads that the validator has accepted.
pub struct RunView {
    pub env: EnvView,
    pub accepted: Seq<RawView>,
}

/// What an outcome for the environment is for the run.
pub open spec fn for_env(state: RunView, outcome: Outcome<EnvView>) -> Outcome<RunView> {
    match outcome {
        Outcome::Next(env) => Outcome::Next(RunView { env, ..state }),
        Outcome::Fails(env, error) => Outcome::Fails(RunView { env, ..state }, error),
        Outcome::Halts => Outcome::Halts,
    }
}

/// What a payload of the input comes to: it is validated, unless it is a
/// custom section, and then it is translated.
pub open spec fn run_step(
    state: RunView,
    config: WasmTranslationConfig,
    features: WasmFeatures,
    raw: RawView,
) -> Outcome<RunView> {
    match raw.content {
        ContentView::CustomSection { name, data, offset } => for_env(
            state,
            payload_step(state.env, config, features.memory64, custom_payload(name, data, offset)),
        ),
        _ => match validation(ValidatorView { features, accepted: state.accepted }, raw) {
            Err(error) => Outcome::Fails(state, invalid(error)),
            Ok(valid) => {
                let accepted = state.accepted.push(raw);
                let declared = declared_types(ValidatorView { features, accepted });
                for_env(
                    RunView { accepted, ..state },
                    payload_step(
                        state.env,
                        config,
                        features.memory64,
                        complete(raw.content, valid, declared),
                    ),
                )
            },
        },
    }
}

/// [`run_step`], for a fold.
pub open spec fn run_steps(config: WasmTranslationConfig, features: WasmFeatures) -> spec_fn(
    RunView,
    RawView,
) -> Outcome<RunView> {
    |state: RunView, raw: RawView| run_step(state, config, features, raw)
}

/// What the payloads of the module `data`, which starts at `offset`, come to.
pub open spec fn run(
    env: EnvView,
    config: WasmTranslationConfig,
    features: WasmFeatures,
    offset: u64,
    data: Seq<u8>,
) -> Outcome<RunView> {
    fold(
        RunView { env, accepted: Seq::empty() },
        payloads(offset, data),
        run_steps(config, features),
    )
}

/// Whether a translation of the module `data`, which starts at `offset`, ends,
/// be it with an error, before it comes to a payload that cannot be read because
/// a length or an offset there cannot be told.
pub open spec fn is_readable(
    env: EnvView,
    config: WasmTranslationConfig,
    features: WasmFeatures,
    offset: u64,
    data: Seq<u8>,
) -> bool {
    &&& offsets_fit(offset, data)
    &&& limit(offset, data) is Some ==> !(fold(
        RunView { env, accepted: Seq::empty() },
        first_of(payloads(offset, data), limit(offset, data)),
        run_steps(config, features),
    ) is Next)
}

/// What a translation of the module `data`, which starts at `offset`, comes to:
/// it has no result if it comes to a payload that cannot be read.
pub open spec fn translation(
    env: EnvView,
    config: WasmTranslationConfig,
    features: WasmFeatures,
    offset: u64,
    data: Seq<u8>,
) -> Outcome<RunView> {
    if is_readable(env, config, features, offset, data) {
        run(env, config, features, offset, data)
    } else {
        Outcome::Halts
    }
}

/// An error among the first payloads decides.
proof fn lemma_first_of(
    start: RunView,
    found: Seq<Result<RawView, ReadErrorView>>,
    n: Option<usize>,
    steps: spec_fn(RunView, RawView) -> Outcome<RunView>,
)
    ensures
        !(fold(start, first_of(found, n), steps) is Next) ==> fold(start, first_of(found, n), steps)
            == fold(start, found, steps),
{
    if let Some(n) = n {
        if n < found.len() && !(fold(start, first_of(found, Some(n)), steps) is Next) {
            entries_after_the_end_are_ignored(start, found, n as int, steps);
        }
    }
}

/// Object containing the standalone environment information.
pub struct ModuleEnvironment<'a, 'data> {
    /// The current module being translated.
    pub result: ModuleTranslation<'data>,
    /// Interned types for this entire translation, shared by all modules.
    pub types: &'a mut ModuleTypesBuilder,
    /// What the caller should hear about, in the order in which it was found.
    pub warnings: &'a mut Vec<Warning>,
    /// The proposals that the validator of the module allows.
    pub features: WasmFeatures,
    /// Configuration for the translation.
    pub config: &'a WasmTranslationConfig,
}

impl<'a, 'data> View for ModuleEnvironment<'a, 'data> {
    type V = EnvView;

    open spec fn view(&self) -> EnvView {
        EnvView {
            result: self.result@,
            signatures: (*self.types)@,
            warnings: views((*self.warnings)@),
        }
    }
}

impl<'a, 'data> ModuleEnvironment<'a, 'data> {
    /// Allocates the environment data structures.
    pub fn new(
        config: &'a WasmTranslationConfig,
        features: WasmFeatures,
        types: &'a mut ModuleTypesBuilder,
        warnings: &'a mut Vec<Warning>,
    ) -> (env: Self)
        requires
            old(types).wf(),
        ensures
            env@ == EnvView::fresh(old(types)@, views(old(warnings)@)),
            env@.wf(),
            env.config == config,
            env.features == features,
            *final(env.types) == *final(types),
            *final(env.warnings) == *final(warnings),
    {
        ModuleEnvironment { result: ModuleTranslation::new(), types, warnings, features, config }
    }

    /// Whether a type of the module is translated: it is a final function type
    /// without a supertype, and there are numbers for it.
    fn can_declare(&self, ty: &DeclaredType) -> (can: bool)
        requires
            self@.wf(),
        ensures
            can == !(declare_type(self@, ty@) is Halts),
    {
        if !ty.is_final || ty.has_supertype || self.result.module.types.len() >= u32::MAX as usize {
            return false;
        }
        match &ty.composite {
            Composite::Func(signature) => self.types.has_number_for(signature),
            Composite::Array => false,
            Composite::Struct => false,
        }
    }

    /// Takes a type of the module: a final function type without a supertype.
    fn declare_type(&mut self, ty: DeclaredType) -> (result: WasmResult<()>)
        requires
            old(self)@.wf(),
            !(declare_type(old(self)@, ty@) is Halts),
        ensures
            result is Ok,
            declare_type(old(self)@, ty@) == Outcome::Next(final(self)@),
            final(self)@.wf(),
            final(self).config == old(self).config,
            final(self).features == old(self).features,
            *final(final(self).types) == *final(old(self).types),
            *final(final(self).warnings) == *final(old(self).warnings),
    {
        match ty.composite {
            Composite::Func(signature) => {
                let index = self.types.wasm_func_type(signature);
                let _ = self.result.module.types.push(ModuleType::Function(index));
            },
            Composite::Array => vstd::pervasive::unreached(),
            Composite::Struct => vstd::pervasive::unreached(),
        }
        Ok(())
    }

    /// Takes the type section.
    fn type_section(&mut self, types: Vec<Option<DeclaredType>>) -> (step: Step)
        requires
            old(self)@.wf(),
        ensures
            step.came_to(type_section(old(self)@, declared_views(types@)), final(self)@),
            !(step is Halt) ==> final(self)@.wf(),
            final(self).config == old(self).config,
            final(self).features == old(self).features,
            *final(final(self).types) == *final(old(self).types),
            *final(final(self).warnings) == *final(old(self).warnings),
    {
        let ghost views = declared_views(types@);
        let ghost all = readable(views);
        for ty in iter: types
            invariant
                views == declared_views(iter.seq()),
                all == readable(views),
                self@.wf(),
                self.config == old(self).config,
                self.features == old(self).features,
                *final(self.types) == *final(old(self).types),
                *final(self.warnings) == *final(old(self).warnings),
                fold(old(self)@, all.take(iter.index() as int), type_steps()) == Outcome::Next(
                    self@,
                ),
        {
            proof {
                lemma_fold_entry(old(self)@, all, iter.index() as int, type_steps(), self@);
            }
            match ty {
                Some(ty) => {
                    if !self.can_declare(&ty) {
                        return Step::Halt;
                    }
                    if let Err(failure) = self.declare_type(ty) {
                        return Step::Fail(failure);
                    }
                },
                None => return Step::Halt,
            }
        }
        assert(all.take(all.len() as int) =~= all);
        Step::Continue
    }

    /// Notes something that the caller should hear about.
    fn warn(&mut self, warning: Warning)
        ensures
            final(self)@ == (EnvView {
                warnings: old(self)@.warnings.push(warning@),
                ..old(self)@
            }),
            final(self).config == old(self).config,
            final(self).features == old(self).features,
            *final(final(self).types) == *final(old(self).types),
            *final(final(self).warnings) == *final(old(self).warnings),
    {
        proof {
            lemma_views_push((*self.warnings)@, warning);
        }
        self.warnings.push(warning);
    }

    /// Takes a payload.
    fn take_payload(&mut self, payload: ModulePayload<'data>) -> (step: Step)
        requires
            old(self)@.wf(),
        ensures
            step.came_to(
                payload_step(
                    old(self)@,
                    *old(self).config,
                    old(self).features.memory64,
                    payload@,
                ),
                final(self)@,
            ),
            !(step is Halt) ==> final(self)@.wf(),
            final(self).config == old(self).config,
            final(self).features == old(self).features,
            *final(final(self).types) == *final(old(self).types),
            *final(final(self).warnings) == *final(old(self).warnings),
    {
        match payload {
            ModulePayload::Version { encoding } => match encoding {
                Encoding::Module => Step::Continue,
                Encoding::Component => {
                    Step::Fail(WasmError::Unsupported("component model".to_owned()))
                },
            },
            ModulePayload::End { types } => {
                self.result.finish(types);
                Step::Continue
            },
            ModulePayload::TypeSection(types) => self.type_section(types),
            ModulePayload::ImportSection(entries) => self.result.import_section(&entries),
            ModulePayload::FunctionSection(entries) => self.result.function_section(&entries),
            ModulePayload::TableSection(entries) => self.result.table_section(&entries),
            ModulePayload::MemorySection(entries) => self.result.memory_section(&entries),
            ModulePayload::TagSection => Step::Halt,
            ModulePayload::GlobalSection(entries) => self.result.global_section(&entries),
            ModulePayload::ExportSection(entries) => self.result.export_section(&entries),
            ModulePayload::StartSection { func } => self.result.start_section(func),
            ModulePayload::ElementSection(entries) => self.result.element_section(&entries),
            ModulePayload::CodeSectionStart { start } => {
                self.result.start_code_section(start);
                Step::Continue
            },
            ModulePayload::CodeSectionEntry { body, validator, locals } => {
                self.result.add_body(
                    &*self.types,
                    self.config,
                    self.features.memory64,
                    body,
                    validator,
                    &locals,
                )
            },
            ModulePayload::DataSection(entries) => self.result.data_section(&entries),
            ModulePayload::DataCountSection => Step::Continue,
            ModulePayload::NameSection(subsections) => {
                proof {
                    name_section_changes_only_names(
                        self.result.module@,
                        *self.config,
                        read_views(subsections@),
                    );
                }
                // An error in this section is no error of the module.
                if let Step::Fail(failure) = self.result.module.name_section(
                    self.config,
                    &subsections,
                ) {
                    self.warn(Warning::NameSection(failure));
                }
                Step::Continue
            },
            ModulePayload::CustomSection { name, data } => {
                if self.result.custom_section(self.config, name, data) {
                    self.warn(Warning::UnknownDebugSection(name.to_owned()));
                }
                Step::Continue
            },
            ModulePayload::Other => Step::Halt,
        }
    }

    /// Translates a payload.
    pub fn translate_payload(&mut self, payload: ModulePayload<'data>) -> (result: WasmResult<()>)
        requires
            old(self)@.wf(),
            !(payload_step(
                old(self)@,
                *old(self).config,
                old(self).features.memory64,
                payload@,
            ) is Halts),
        ensures
            match payload_step(
                old(self)@,
                *old(self).config,
                old(self).features.memory64,
                payload@,
            ) {
                Outcome::Next(env) => result is Ok && final(self)@ == env,
                Outcome::Fails(env, error) => (result matches Err(failure) && failure@ == error)
                    && final(self)@ == env,
                Outcome::Halts => false,
            },
            final(self)@.wf(),
            final(self).config == old(self).config,
            final(self).features == old(self).features,
            *final(final(self).types) == *final(old(self).types),
            *final(final(self).warnings) == *final(old(self).warnings),
    {
        match self.take_payload(payload) {
            Step::Continue => Ok(()),
            Step::Fail(failure) => Err(failure),
            Step::Halt => vstd::pervasive::unreached(),
        }
    }

    /// Reads, validates and translates the module `data`.
    fn run(&mut self, offset: u64, data: &'data [u8]) -> (step: Step)
        requires
            old(self)@.wf(),
            offsets_fit(offset, data@),
        ensures
            match translation(old(self)@, *old(self).config, old(self).features, offset, data@) {
                Outcome::Next(state) => step is Continue && final(self)@ == state.env,
                Outcome::Fails(state, error) => (step matches Step::Fail(failure) && failure@
                    == error) && final(self)@ == state.env,
                Outcome::Halts => step is Halt,
            },
            !(step is Halt) ==> final(self)@.wf(),
            step is Continue ==> final(self)@.result.is_complete(),
            step is Continue && is_fresh(old(self)@) ==> final(self)@.result.is_counted(),
            final(self).config == old(self).config,
            final(self).features == old(self).features,
            *final(final(self).types) == *final(old(self).types),
            *final(final(self).warnings) == *final(old(self).warnings),
    {
        let ghost config = *self.config;
        let ghost features = self.features;
        let ghost start = RunView { env: self@, accepted: Seq::empty() };
        let ghost steps = run_steps(config, features);
        let ghost mut state = start;
        let mut validator = new_validator(&self.features);
        let n = find_limit(offset, data);
        let found = parse_all(offset, data, n);
        let ghost all = payload_views(found@);
        proof {
            if n is None {
                a_translated_module_is_complete(self@, config, features, offset, data@);
            }
            lemma_first_of(start, payloads(offset, data@), n, steps);
            if is_fresh(self@) {
                a_new_environment_is_sound(self@.signatures, self@.warnings, config);
                every_module_keeps_the_environment_sound(self@, config, features, offset, data@);
                a_translated_module_is_initialized(self@, config, features, offset, data@);
            }
        }
        for payload in iter: found
            invariant
                all == payload_views(iter.seq()),
                start == (RunView { env: old(self)@, accepted: Seq::empty() }),
                steps == run_steps(config, features),
                config == *self.config,
                features == self.features,
                self@.wf(),
                self.config == old(self).config,
                self.features == old(self).features,
                *final(self.types) == *final(old(self).types),
                *final(self.warnings) == *final(old(self).warnings),
                offsets_fit(offset, data@),
                n == limit(offset, data@),
                all == first_of(payloads(offset, data@), n),
                !(fold(start, all, steps) is Next) ==> fold(start, all, steps) == fold(
                    start,
                    payloads(offset, data@),
                    steps,
                ),
                come_in_order(all),
                state.accepted == to_validate(all.take(iter.index() as int)),
                are_of_a_module(state.accepted),
                is_fresh(old(self)@) ==> has_more(
                    TranslationView::empty(),
                    self@.result,
                    functions_declared(state.accepted),
                    bodies_found(state.accepted),
                ),
                state.accepted.len() > 0 && state.accepted.last().content is End
                    ==> functions_declared(state.accepted) == bodies_announced(state.accepted)
                    && bodies_found(state.accepted) == bodies_announced(state.accepted),
                state.env == self@,
                validator_view(validator) == (ValidatorView { features, accepted: state.accepted }),
                fold(start, all.take(iter.index() as int), steps) == Outcome::Next(state),
        {
            proof {
                lemma_fold_entry(start, all, iter.index() as int, steps, state);
                lemma_one_more_payload(all, iter.index() as int);
            }
            let ghost before = state;
            let payload = match payload {
                Ok(payload) => payload,
                Err(error) => return Step::Fail(WasmError::from(error)),
            };
            let ghost raw = payload_view(payload);
            proof {
                assert(all[iter.index() as int] == Ok::<RawView, ReadErrorView>(raw));
                assert(comes_in_order(state.accepted, raw));
                lemma_counts_of_one_more(state.accepted, raw);
                lemma_run_step_counts(state, config, features, raw);
            }
            let read = match custom_part(&payload) {
                Some(custom) => read_custom_section(custom.name, custom.data, custom.offset),
                None => {
                    let valid = match validate(&mut validator, &payload) {
                        Ok(valid) => valid,
                        Err(error) => return Step::Fail(WasmError::from(error)),
                    };
                    proof {
                        state = RunView { accepted: state.accepted.push(raw), ..state };
                    }
                    read_payload(&validator, &payload, valid)
                },
            };
            match self.take_payload(read) {
                Step::Continue => {},
                stuck => return stuck,
            }
            proof {
                state = RunView { env: self@, ..state };
            }
        }
        assert(all.take(all.len() as int) =~= all);
        if n.is_some() {
            return Step::Halt;
        }
        Step::Continue
    }

    /// Parse a wasm module using this environment.
    ///
    /// This function will parse the `data` provided, which starts at `offset`,
    /// validating everything along the way.
    ///
    /// The result of parsing, [`ModuleTranslation`], contains everything
    /// necessary to translate functions afterwards.
    pub fn translate(self, offset: u64, data: &'data [u8]) -> (result: WasmResult<
        ModuleTranslation<'data>,
    >)
        requires
            self@.wf(),
            !(translation(self@, *self.config, self.features, offset, data@) is Halts),
        ensures
            match translation(self@, *self.config, self.features, offset, data@) {
                Outcome::Next(state) => (result matches Ok(translation) && translation@
                    == state.env.result) && final(self.types)@ == state.env.signatures && views(
                    final(self.warnings)@,
                ) == state.env.warnings,
                Outcome::Fails(state, error) => (result matches Err(failure) && failure@ == error)
                    && final(self.types)@ == state.env.signatures && views(final(self.warnings)@)
                    == state.env.warnings,
                Outcome::Halts => false,
            },
            final(self.types).wf(),
            result matches Ok(translation) ==> translation@.wf() && translation@.is_complete(),
            result matches Ok(translation) ==> is_fresh(self@) ==> translation@.is_counted(),
    {
        let mut env = self;
        match env.run(offset, data) {
            Step::Continue => Ok(env.result),
            Step::Fail(failure) => Err(failure),
            Step::Halt => vstd::pervasive::unreached(),
        }
    }

    /// Parse a wasm module in a new environment, if that has a result.
    ///
    /// There is none for a module that uses what is not translated yet, such
    /// as exception tags or imports of memories, nor for an input whose offsets
    /// cannot be told. The interned types and the warnings stay as they are then.
    pub fn try_translate(
        config: &WasmTranslationConfig,
        features: WasmFeatures,
        types: &mut ModuleTypesBuilder,
        warnings: &mut Vec<Warning>,
        offset: u64,
        data: &'data [u8],
    ) -> (result: Option<WasmResult<ModuleTranslation<'data>>>)
        requires
            old(types).wf(),
        ensures
            ({
                let env = EnvView::fresh(old(types)@, views(old(warnings)@));
                match translation(env, *config, features, offset, data@) {
                    Outcome::Next(state) => (result matches Some(Ok(translation)) && translation@
                        == state.env.result && translation@.wf() && translation@.is_complete()
                        && translation@.is_counted()) && final(types)@ == state.env.signatures
                        && views(final(warnings)@) == state.env.warnings,
                    Outcome::Fails(state, error) => (result matches Some(Err(failure)) && failure@
                        == error) && final(types)@ == state.env.signatures
                        && views(final(warnings)@) == state.env.warnings,
                    Outcome::Halts => result is None && final(types)@ == old(types)@
                        && final(warnings)@ == old(warnings)@,
                }
            }),
            final(types).wf(),
    {
        if offset as u128 + data.len() as u128 > usize::MAX as u128 {
            return None;
        }
        let mut scratch = types.copy();
        let mut unheard = copy_warnings(warnings);
        let mut trial = ModuleEnvironment::new(config, features, &mut scratch, &mut unheard);
        if let Step::Halt = trial.run(offset, data) {
            return None;
        }
        Some(ModuleEnvironment::new(config, features, types, warnings).translate(offset, data))
    }
}

} // verus!

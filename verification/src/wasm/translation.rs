//! The translation of a module, as far as it has come.
use vstd::prelude::*;

use super::bodies::{bodies_of, FunctionBodies, FunctionBodyData, FunctionBodyView};
use super::debuginfo::{
    dwarf_sections, is_unknown_section, no_sections, with_dwarf_section, DebugInfoData, DebugNote,
    DebugView, FunctionMetadata, FunctionMetadataView, WasmFileView, WasmTranslationConfig,
};
use super::error::{
    fold, invalid, lemma_fold_entry, read_failure, Outcome, Read, ReadErrorView, Step,
};
use super::exported::{exported, exported_signatures, lists_exported};
use super::index::{FuncIndex, SignatureIndex};
use super::module::{lemma_views_push, views, Module, ModuleView};
use super::parser::{allow_memarg64, body_view, func_view, types_view};
use super::payload::{locals_view, BodyView, DeclaredTypeView, FuncView, LocalsView};
use super::types::{copy_types, FuncTypeView, ModuleTypesBuilder, WasmType};

verus! {

/// The result of translating a module. Function bodies are not yet
/// translated, and data initializers have not yet been copied out of the
/// original buffer.
pub struct ModuleTranslation<'data> {
    /// Module information.
    pub module: Module,
    /// References to the function bodies.
    pub function_body_inputs: FunctionBodies<'data>,
    /// A list of type signatures which are considered exported from this
    /// module, or those that can possibly be called.
    pub exported_signatures: Vec<SignatureIndex>,
    /// DWARF debug information, if enabled, parsed from the module.
    pub debuginfo: DebugInfoData<'data>,
    /// Set if debuginfo was found but it was not parsed due to the
    /// configuration.
    pub has_unparsed_debuginfo: bool,
    /// List of data segments found in this module which should be
    /// concatenated together for the final compiled artifact.
    pub data: Vec<&'data [u8]>,
    /// How far the translation has come.
    pub progress: Progress,
}

/// How far a translation has come.
pub struct Progress {
    /// The number of function bodies so far: which function the next one defines.
    code_index: u32,
    /// The type information of the module, made available at the end of the
    /// validation process.
    types: Option<wasmparser::types::Types>,
}

impl Progress {
    /// The number of function bodies so far.
    pub closed spec fn next_body(&self) -> u32 {
        self.code_index
    }

    /// The type information of the module, if it is available.
    pub closed spec fn known_types(&self) -> Option<Seq<DeclaredTypeView>> {
        match self.types {
            Some(types) => Some(types_view(types)),
            None => None,
        }
    }
}

/// What a [`ModuleTranslation`] says.
pub struct TranslationView {
    pub module: ModuleView,
    pub bodies: Seq<FunctionBodyView>,
    pub exported_signatures: Seq<SignatureIndex>,
    pub debug: DebugView,
    pub wasm_file: WasmFileView,
    pub data: Seq<Seq<u8>>,
    pub code_index: u32,
    pub types: Option<Seq<DeclaredTypeView>>,
}

impl<'data> View for ModuleTranslation<'data> {
    type V = TranslationView;

    open spec fn view(&self) -> TranslationView {
        TranslationView {
            module: self.module@,
            bodies: bodies_of(self.function_body_inputs),
            exported_signatures: self.exported_signatures@,
            debug: DebugView {
                sections: dwarf_sections(self.debuginfo.dwarf),
                has_unparsed: self.has_unparsed_debuginfo,
            },
            wasm_file: self.debuginfo.wasm_file@,
            data: views(self.data@),
            code_index: self.progress.next_body(),
            types: self.progress.known_types(),
        }
    }
}

impl TranslationView {
    /// Nothing is translated yet.
    pub open spec fn empty() -> TranslationView {
        TranslationView {
            module: ModuleView::empty(),
            bodies: Seq::empty(),
            exported_signatures: Seq::empty(),
            debug: DebugView { sections: no_sections(), has_unparsed: false },
            wasm_file: WasmFileView::empty(),
            data: Seq::empty(),
            code_index: 0,
            types: None,
        }
    }

    /// What holds of a translation at every step: the module is as it should
    /// be, the input is known to import as many functions as the module has
    /// imports of, and each function body is the next one.
    pub open spec fn wf(self) -> bool {
        &&& self.module.wf()
        &&& self.wasm_file.imported_func_count == self.module.num_imported_funcs
        &&& self.code_index == self.bodies.len()
    }

    /// Whether what belongs together has been found the same number of times:
    /// each function that is not imported has a body, each table and each
    /// global that is not imported starts as something, and each import has an
    /// initializer.
    pub open spec fn is_counted(self) -> bool {
        let module = self.module;
        &&& module.functions.len() == module.num_imported_funcs + self.bodies.len()
        &&& self.wasm_file.imported_func_count == module.num_imported_funcs
        &&& module.tables.len() == module.num_imported_tables + module.initial_values.len()
        &&& module.globals.len() == module.num_imported_globals + module.global_initializers.len()
        &&& module.initializers.len() == module.num_imported_funcs + module.num_imported_tables
            + module.num_imported_globals
    }

    /// Whether the module has been translated to its end: its types are
    /// available, and the signatures that are listed as exported are exactly
    /// those of the functions that escape.
    pub open spec fn is_complete(self) -> bool {
        &&& self.types is Some
        &&& lists_exported(self.exported_signatures, self.module.functions)
    }
}

/// What the locals that a function body declares are added up to.
pub open spec fn more_locals() -> spec_fn(Seq<(u32, WasmType)>, (u32, WasmType)) -> Outcome<
    Seq<(u32, WasmType)>,
> {
    |locals: Seq<(u32, WasmType)>, pair: (u32, WasmType)| Outcome::Next(locals.push(pair))
}

/// What is known of the input after the function with the number `func`, when
/// debug information is generated for it.
pub open spec fn with_metadata(
    t: TranslationView,
    signatures: Seq<FuncTypeView>,
    func: int,
    locals: LocalsView,
) -> Outcome<TranslationView> {
    if !(0 <= func < t.module.functions.len()) {
        Outcome::Halts
    } else {
        let signature = t.module.functions[func].signature.0 as int;
        if signature >= signatures.len() {
            Outcome::Halts
        } else {
            match locals {
                Err(error) => Outcome::Fails(t, invalid(error)),
                Ok(pairs) => match fold(Seq::empty(), pairs, more_locals()) {
                    Outcome::Next(locals) => {
                        let metadata = FunctionMetadataView {
                            params: signatures[signature].params,
                            locals,
                        };
                        Outcome::Next(
                            TranslationView {
                                wasm_file: WasmFileView {
                                    funcs: t.wasm_file.funcs.push(metadata),
                                    ..t.wasm_file
                                },
                                ..t
                            },
                        )
                    },
                    Outcome::Fails(_, error) => Outcome::Fails(t, error),
                    Outcome::Halts => Outcome::Halts,
                },
            }
        }
    }
}

/// What a function body comes to.
pub open spec fn with_body(
    t: TranslationView,
    signatures: Seq<FuncTypeView>,
    config: WasmTranslationConfig,
    memory64: bool,
    body: BodyView,
    validator: FuncView,
    locals: LocalsView,
) -> Outcome<TranslationView> {
    let func = t.code_index + t.module.num_imported_funcs;
    if func >= u32::MAX {
        Outcome::Halts
    } else {
        let described = if config.generate_native_debuginfo {
            with_metadata(t, signatures, func, locals)
        } else {
            Outcome::Next(t)
        };
        match described {
            Outcome::Next(t) => Outcome::Next(
                TranslationView {
                    bodies: t.bodies.push(
                        FunctionBodyView {
                            body: BodyView { memarg64: memory64, ..body },
                            validator,
                        },
                    ),
                    code_index: (t.code_index + 1) as u32,
                    ..t
                },
            ),
            stuck => stuck,
        }
    }
}

/// What the end of the module comes to.
pub open spec fn with_end(t: TranslationView, types: Seq<DeclaredTypeView>) -> TranslationView {
    TranslationView {
        types: Some(types),
        exported_signatures: exported(t.module.functions),
        ..t
    }
}

/// What a custom section comes to, other than the one with the names.
pub open spec fn with_custom_section(
    t: TranslationView,
    config: WasmTranslationConfig,
    name: Seq<char>,
    data: Seq<u8>,
) -> TranslationView {
    TranslationView { debug: with_dwarf_section(t.debug, config, name, data), ..t }
}

/// What the start of the code section comes to.
pub open spec fn with_code_section(t: TranslationView, start: usize) -> TranslationView {
    TranslationView {
        wasm_file: WasmFileView { code_section_offset: start as u64, ..t.wasm_file },
        ..t
    }
}

/// What the locals of a function body add up to, or the error that was met.
fn collect_locals(locals: &Read<Vec<Read<(u32, WasmType)>>>) -> (collected: Result<
    Vec<(u32, WasmType)>,
    Step,
>)
    ensures
        match locals_view(*locals) {
            Err(error) => collected matches Err(Step::Fail(failure)) && failure@ == invalid(error),
            Ok(pairs) => match fold(Seq::empty(), pairs, more_locals()) {
                Outcome::Next(sum) => collected matches Ok(all) && all@ == sum,
                Outcome::Fails(_, error) => collected matches Err(Step::Fail(failure)) && failure@
                    == error,
                Outcome::Halts => false,
            },
        },
{
    let pairs = match locals {
        Ok(pairs) => pairs,
        Err(error) => return Err(Step::Fail(read_failure(error))),
    };
    let ghost all = locals_view(*locals)->Ok_0;
    let ghost start = Seq::<(u32, WasmType)>::empty();
    let mut collected: Vec<(u32, WasmType)> = Vec::new();
    let mut i: usize = 0;
    while i < pairs.len()
        invariant
            i <= pairs@.len(),
            *locals == Ok::<_, super::error::ReadError>(*pairs),
            locals_view(*locals) == Ok::<_, ReadErrorView>(all),
            start == Seq::<(u32, WasmType)>::empty(),
            fold(start, all.take(i as int), more_locals()) == Outcome::Next(collected@),
        decreases pairs@.len() - i,
    {
        proof {
            lemma_fold_entry(start, all, i as int, more_locals(), collected@);
        }
        match &pairs[i] {
            Ok(pair) => collected.push(*pair),
            Err(error) => return Err(Step::Fail(read_failure(error))),
        }
        i = i + 1;
    }
    assert(all.take(i as int) =~= all);
    Ok(collected)
}

impl<'data> ModuleTranslation<'data> {
    /// Nothing is translated yet.
    pub fn new() -> (translation: Self)
        ensures
            translation@ == TranslationView::empty(),
            translation@.wf(),
    {
        let translation = ModuleTranslation {
            module: Module::new(),
            function_body_inputs: FunctionBodies::new(),
            exported_signatures: Vec::new(),
            debuginfo: DebugInfoData::new(),
            has_unparsed_debuginfo: false,
            data: Vec::new(),
            progress: Progress { code_index: 0, types: None },
        };
        assert(translation@.data =~= Seq::<Seq<u8>>::empty());
        assert(translation@.exported_signatures =~= Seq::<SignatureIndex>::empty());
        translation
    }

    /// Returns a reference to the type information of the current module.
    pub fn get_types(&self) -> (types: &wasmparser::types::Types)
        requires
            self@.types is Some,
        ensures
            self@.types == Some(types_view(*types)),
    {
        match &self.progress.types {
            Some(types) => types,
            None => vstd::pervasive::unreached(),
        }
    }

    /// Describes the function with the number `func` for debug information.
    fn describe_function(
        &mut self,
        signatures: &ModuleTypesBuilder,
        func: u32,
        locals: &Read<Vec<Read<(u32, WasmType)>>>,
    ) -> (step: Step)
        requires
            old(self)@.wf(),
        ensures
            step.came_to(
                with_metadata(old(self)@, signatures@, func as int, locals_view(*locals)),
                final(self)@,
            ),
            !(step is Halt) ==> final(self)@.wf(),
    {
        if func as usize >= self.module.functions.len() {
            return Step::Halt;
        }
        let signature: SignatureIndex = self.module.functions.get(FuncIndex(func)).signature;
        match signatures.get(signature) {
            None => Step::Halt,
            Some(signature) => match collect_locals(locals) {
                Err(step) => step,
                Ok(locals) => {
                    let metadata = FunctionMetadata {
                        params: copy_types(&signature.params),
                        locals,
                    };
                    proof {
                        lemma_views_push(self.debuginfo.wasm_file.funcs@, metadata);
                    }
                    self.debuginfo.wasm_file.funcs.push(metadata);
                    Step::Continue
                },
            },
        }
    }

    /// Adds a function body.
    pub fn add_body(
        &mut self,
        signatures: &ModuleTypesBuilder,
        config: &WasmTranslationConfig,
        memory64: bool,
        mut body: wasmparser::FunctionBody<'data>,
        validator: wasmparser::FuncToValidate<wasmparser::ValidatorResources>,
        locals: &Read<Vec<Read<(u32, WasmType)>>>,
    ) -> (step: Step)
        requires
            old(self)@.wf(),
        ensures
            step.came_to(
                with_body(
                    old(self)@,
                    signatures@,
                    *config,
                    memory64,
                    body_view(body),
                    func_view(validator),
                    locals_view(*locals),
                ),
                final(self)@,
            ),
            !(step is Halt) ==> final(self)@.wf(),
    {
        let func: u64 = self.progress.code_index as u64 + self.module.num_imported_funcs as u64;
        if func >= u32::MAX as u64 {
            return Step::Halt;
        }
        if config.generate_native_debuginfo {
            match self.describe_function(signatures, func as u32, locals) {
                Step::Continue => {},
                stuck => return stuck,
            }
        }
        allow_memarg64(&mut body, memory64);
        let _ = self.function_body_inputs.push(FunctionBodyData { body, validator });
        self.progress.code_index = self.progress.code_index + 1;
        Step::Continue
    }

    /// Takes the type information of the module, and finds the signatures that
    /// are exported: those of the functions that escape.
    pub fn finish(&mut self, types: wasmparser::types::Types)
        requires
            old(self)@.wf(),
        ensures
            final(self)@ == with_end(old(self)@, types_view(types)),
            final(self)@.wf(),
    {
        self.progress.types = Some(types);
        self.exported_signatures = exported_signatures(&self.module.functions);
    }

    /// Notes where the code section starts.
    pub fn start_code_section(&mut self, start: usize)
        requires
            old(self)@.wf(),
        ensures
            final(self)@ == with_code_section(old(self)@, start),
            final(self)@.wf(),
    {
        self.debuginfo.wasm_file.code_section_offset = start as u64;
    }

    /// Takes a custom section other than the one with the names. Says whether
    /// it is a debug section of an unknown name.
    pub fn custom_section(
        &mut self,
        config: &WasmTranslationConfig,
        name: &str,
        data: &'data [u8],
    ) -> (unknown: bool)
        requires
            old(self)@.wf(),
        ensures
            final(self)@ == with_custom_section(old(self)@, *config, name@, data@),
            final(self)@.wf(),
            unknown == is_unknown_section(*config, name@),
    {
        let note = self.debuginfo.register_dwarf_section(config, name, data);
        if note == DebugNote::Unparsed {
            self.has_unparsed_debuginfo = true;
        }
        note == DebugNote::Unknown
    }
}

impl<'data> Default for ModuleTranslation<'data> {
    fn default() -> (translation: Self)
        ensures
            translation@ == TranslationView::empty(),
            translation@.wf(),
    {
        ModuleTranslation::new()
    }
}

} // verus!

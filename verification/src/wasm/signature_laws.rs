//! What types, function bodies and the end add to a translation.
use vstd::prelude::*;

use super::bodies::FunctionBodyView;
use super::debuginfo::{FunctionMetadataView, WasmFileView, WasmTranslationConfig};
use super::error::{fold, lemma_fold_entry, lemma_fold_push, ErrorView, Outcome, ReadErrorView};
use super::exported::{exported, exported_lists_what_escapes, is_exported, strictly_sorted};
use super::index::SignatureIndex;
use super::module::{FunctionType, ModuleType, ModuleView};
use super::module_env::{payload_step, readable, type_section, type_steps, EnvView};
use super::payload::{BodyView, CompositeView, DeclaredTypeView, FuncView, LocalsView, PayloadView};
use super::translation::{more_locals, TranslationView};
use super::types::{intern, interning_keeps_numbers, FuncTypeView, WasmType};

verus! {

/// Whether a declared type is a final function type without a supertype, with
/// this signature.
pub open spec fn declares(ty: Option<DeclaredTypeView>, signature: FuncTypeView) -> bool {
    ty matches Some(ty) && ty.is_final && !ty.has_supertype && ty.composite == CompositeView::Func(
        signature,
    )
}

/// Whether a type of the module is the number of an interned signature, and that
/// signature is what `declared` declares.
pub open spec fn stands_for(
    ty: ModuleType,
    signatures: Seq<FuncTypeView>,
    declared: Option<DeclaredTypeView>,
) -> bool {
    ty matches ModuleType::Function(n) && n.0 < signatures.len() && declares(
        declared,
        signatures[n.0 as int],
    )
}

/// Whether a function that escapes has the signature `signature`.
pub open spec fn escapes_with(functions: Seq<FunctionType>, signature: SignatureIndex) -> bool {
    exists|f: int|
        0 <= f < functions.len() && (#[trigger] functions[f]).func_ref.0 != u32::MAX
            && functions[f].signature == signature
}

/// One more type that is translated adds a type of the module, whose number is
/// that of a signature with exactly the parameters and the results that are
/// declared. A signature that is interned already is not interned again, another
/// one comes behind all others. Nothing else changes.
pub proof fn a_type_is_interned_as_it_is_declared(
    env: EnvView,
    config: WasmTranslationConfig,
    memory64: bool,
    types: Seq<Option<DeclaredTypeView>>,
    ty: Option<DeclaredTypeView>,
    signature: FuncTypeView,
    before: EnvView,
)
    requires
        payload_step(env, config, memory64, PayloadView::TypeSection(types)) == Outcome::Next(
            before,
        ),
        before.wf(),
        declares(ty, signature),
        before.signatures.len() < u32::MAX,
        before.result.module.types.len() < u32::MAX,
    ensures
        ({
            let outcome = payload_step(
                env,
                config,
                memory64,
                PayloadView::TypeSection(types.push(ty)),
            );
            let old = before.result.module.types;
            &&& outcome matches Outcome::Next(after)
            &&& if before.signatures.contains(signature) {
                after.signatures == before.signatures
            } else {
                after.signatures == before.signatures.push(signature)
            }
            &&& exists|n: u32|
                {
                    &&& n < after.signatures.len()
                    &&& after.signatures[n as int] == signature
                    &&& after.result.module.types == #[trigger] old.push(
                        ModuleType::Function(SignatureIndex(n)),
                    )
                }
            &&& after == (EnvView {
                result: TranslationView {
                    module: ModuleView {
                        types: after.result.module.types,
                        ..before.result.module
                    },
                    ..before.result
                },
                signatures: after.signatures,
                ..before
            })
        }),
{
    assert(readable(types.push(ty)) =~= readable(types).push(Ok(ty)));
    lemma_fold_push(env, readable(types), Ok(ty), type_steps(), before);
    interning_keeps_numbers(before.signatures, signature);
    let index = intern(before.signatures, signature).1;
    let old = before.result.module.types;
    let new = old.push(ModuleType::Function(SignatureIndex(index as u32)));
}

/// Only final function types without a supertype are translated.
pub proof fn other_types_have_no_result(
    env: EnvView,
    config: WasmTranslationConfig,
    memory64: bool,
    types: Seq<Option<DeclaredTypeView>>,
    ty: Option<DeclaredTypeView>,
    before: EnvView,
)
    requires
        payload_step(env, config, memory64, PayloadView::TypeSection(types)) == Outcome::Next(
            before,
        ),
        forall|signature: FuncTypeView| !declares(ty, signature),
    ensures
        payload_step(env, config, memory64, PayloadView::TypeSection(types.push(ty))) is Halts,
{
    assert(readable(types.push(ty)) =~= readable(types).push(Ok(ty)));
    lemma_fold_push(env, readable(types), Ok(ty), type_steps(), before);
    if let Some(ty) = ty {
        if let CompositeView::Func(signature) = ty.composite {
            assert(!declares(Some(ty), signature));
        }
    }
}

/// A type section that is translated adds a type for each entry, in their order.
/// Each is a final function type without a supertype, and the interned signature
/// with the number of the type has exactly the parameters and the results that
/// are declared. Signatures that were interned before keep their numbers, and
/// only declared ones are added.
pub proof fn every_type_is_interned_as_it_is_declared(
    env: EnvView,
    config: WasmTranslationConfig,
    memory64: bool,
    types: Seq<Option<DeclaredTypeView>>,
    after: EnvView,
)
    requires
        payload_step(env, config, memory64, PayloadView::TypeSection(types)) == Outcome::Next(
            after,
        ),
        env.signatures.no_duplicates(),
    ensures
        after.signatures.no_duplicates(),
        ({
            let old = env.result.module.types;
            let new = after.result.module.types;
            &&& new.len() == old.len() + types.len()
            &&& forall|i: int| 0 <= i < old.len() ==> #[trigger] new[i] == old[i]
            &&& forall|i: int|
                0 <= i < types.len() ==> stands_for(
                    new[old.len() + i],
                    after.signatures,
                    #[trigger] types[i],
                )
        }),
        env.signatures.len() <= after.signatures.len(),
        forall|i: int|
            0 <= i < env.signatures.len() ==> #[trigger] after.signatures[i] == env.signatures[i],
        forall|i: int|
            env.signatures.len() <= i < after.signatures.len() ==> exists|k: int|
                0 <= k < types.len() && declares(
                    #[trigger] types[k],
                    #[trigger] after.signatures[i],
                ),
    decreases types.len(),
{
    if types.len() > 0 {
        let rest = types.drop_last();
        assert(readable(types).drop_last() =~= readable(rest));
        let before = type_section(env, rest)->Next_0;
        every_type_is_interned_as_it_is_declared(env, config, memory64, rest, before);
        let last = types.last();
        assert(readable(types).last() == Ok::<Option<DeclaredTypeView>, ReadErrorView>(last));
        assert(types[types.len() - 1] == last);
        let signature = last->Some_0.composite->Func_0;
        interning_keeps_numbers(before.signatures, signature);
        let old = env.result.module.types;
        let new = after.result.module.types;
        assert(new.len() == old.len() + types.len());
        assert forall|i: int| 0 <= i < old.len() implies #[trigger] new[i] == old[i] by {
            assert(new[i] == before.result.module.types[i]);
        }
        assert forall|i: int| 0 <= i < types.len() implies stands_for(
            new[old.len() + i],
            after.signatures,
            #[trigger] types[i],
        ) by {
            if i < rest.len() {
                assert(rest[i] == types[i]);
                assert(new[old.len() + i] == before.result.module.types[old.len() + i]);
                assert(stands_for(new[old.len() + i], before.signatures, rest[i]));
            }
        }
        assert forall|i: int|
            env.signatures.len() <= i < after.signatures.len() implies exists|k: int|
            0 <= k < types.len() && declares(
                #[trigger] types[k],
                #[trigger] after.signatures[i],
            ) by {
            if i < before.signatures.len() {
                assert(after.signatures[i] == before.signatures[i]);
                let k = choose|k: int|
                    0 <= k < rest.len() && declares(
                        #[trigger] rest[k],
                        #[trigger] before.signatures[i],
                    );
                assert(types[k] == rest[k]);
                assert(declares(types[k], after.signatures[i]));
            } else {
                assert(declares(types[types.len() - 1], after.signatures[i]));
            }
        }
    }
}

/// The end of a module makes the types available, and lists the signatures of
/// the functions that escape: every one of them and no other, in order, none of
/// them twice. Nothing else changes.
pub proof fn the_end_lists_the_signatures_that_escape(
    env: EnvView,
    config: WasmTranslationConfig,
    memory64: bool,
    types: Seq<DeclaredTypeView>,
)
    ensures
        ({
            let functions = env.result.module.functions;
            &&& payload_step(env, config, memory64, PayloadView::End { types })
                matches Outcome::Next(after)
            &&& forall|i: int, j: int|
                0 <= i < j < after.result.exported_signatures.len() ==> (
                #[trigger] after.result.exported_signatures[i]).0 < (
                #[trigger] after.result.exported_signatures[j]).0
            &&& forall|i: int|
                0 <= i < after.result.exported_signatures.len() ==> escapes_with(
                    functions,
                    #[trigger] after.result.exported_signatures[i],
                )
            &&& forall|f: int|
                0 <= f < functions.len() && (#[trigger] functions[f]).func_ref.0 != u32::MAX
                    ==> after.result.exported_signatures.contains(functions[f].signature)
            &&& after == (EnvView {
                result: TranslationView {
                    types: Some(types),
                    exported_signatures: after.result.exported_signatures,
                    ..env.result
                },
                ..env
            })
        }),
{
    let functions = env.result.module.functions;
    exported_lists_what_escapes(functions);
    let listed = exported(functions);
    assert forall|i: int, j: int| 0 <= i < j < listed.len() implies (#[trigger] listed[i]).0 < (
    #[trigger] listed[j]).0 by {
        assert(strictly_sorted(listed));
    }
    assert forall|i: int| 0 <= i < listed.len() implies escapes_with(
        functions,
        #[trigger] listed[i],
    ) by {
        assert(listed.contains(listed[i]));
        assert(is_exported(functions, listed[i]));
        let f = choose|f: int|
            0 <= f < functions.len() && (#[trigger] functions[f]).escapes()
                && functions[f].signature == listed[i];
        assert(functions[f].func_ref.0 != u32::MAX);
    }
    assert forall|f: int|
        0 <= f < functions.len() && (#[trigger] functions[f]).func_ref.0
            != u32::MAX implies listed.contains(functions[f].signature) by {
        assert(is_exported(functions, functions[f].signature));
    }
}

/// The start of the code section notes where it is, and changes nothing else.
pub proof fn the_start_of_the_code_section_is_noted(
    env: EnvView,
    config: WasmTranslationConfig,
    memory64: bool,
    start: usize,
)
    ensures
        payload_step(env, config, memory64, PayloadView::CodeSectionStart { start }) == (
        Outcome::Next(
            EnvView {
                result: TranslationView {
                    wasm_file: WasmFileView {
                        code_section_offset: start as u64,
                        ..env.result.wasm_file
                    },
                    ..env.result
                },
                ..env
            },
        )),
{
}

/// Whether `locals` are what could be read of the locals of a function body.
pub open spec fn are_read(
    pairs: Seq<Result<(u32, WasmType), ReadErrorView>>,
    locals: Seq<(u32, WasmType)>,
) -> bool {
    &&& locals.len() == pairs.len()
    &&& forall|i: int|
        0 <= i < pairs.len() ==> #[trigger] pairs[i] == Ok::<(u32, WasmType), ReadErrorView>(
            locals[i],
        )
}

/// Locals that could be read are collected.
proof fn lemma_locals(pairs: Seq<Result<(u32, WasmType), ReadErrorView>>)
    requires
        forall|i: int| 0 <= i < pairs.len() ==> #[trigger] pairs[i] is Ok,
    ensures
        fold(Seq::empty(), pairs, more_locals()) matches Outcome::Next(locals) && are_read(
            pairs,
            locals,
        ),
    decreases pairs.len(),
{
    if pairs.len() > 0 {
        let rest = pairs.drop_last();
        assert forall|i: int| 0 <= i < rest.len() implies #[trigger] rest[i] is Ok by {
            assert(pairs[i] is Ok);
        }
        lemma_locals(rest);
        assert(pairs[pairs.len() - 1] is Ok);
        let listed = fold(Seq::empty(), rest, more_locals())->Next_0;
        let locals = fold(Seq::empty(), pairs, more_locals())->Next_0;
        assert forall|i: int| 0 <= i < pairs.len() implies #[trigger] pairs[i] == Ok::<
            (u32, WasmType),
            ReadErrorView,
        >(locals[i]) by {
            if i < rest.len() {
                assert(rest[i] == pairs[i]);
            }
        }
    }
}

/// A function body comes behind those that came before, with what it is
/// validated against, and with 64-bit memory offsets allowed as the features say.
/// If debug information is generated, the function that it defines, the next one
/// that is not imported, is described by the parameters of its signature and the
/// locals of the body. Nothing else changes. Locals that cannot be read end the
/// translation with their error, but only if debug information is generated.
pub proof fn a_function_body_is_the_next_one(
    env: EnvView,
    config: WasmTranslationConfig,
    memory64: bool,
    body: BodyView,
    validator: FuncView,
    locals: LocalsView,
)
    requires
        env.wf(),
        env.result.bodies.len() + env.result.module.num_imported_funcs < u32::MAX,
    ensures
        ({
            let outcome = payload_step(
                env,
                config,
                memory64,
                PayloadView::CodeSectionEntry { body, validator, locals },
            );
            let t = env.result;
            let func = (t.bodies.len() + t.module.num_imported_funcs) as int;
            let described = t.module.functions[func].signature.0 as int;
            let bodies = t.bodies.push(
                FunctionBodyView {
                    body: BodyView { start: body.start, bytes: body.bytes, memarg64: memory64 },
                    validator,
                },
            );
            if !config.generate_native_debuginfo {
                &&& outcome matches Outcome::Next(after)
                &&& after.result.code_index == t.code_index + 1
                &&& after == (EnvView {
                    result: TranslationView { bodies, code_index: after.result.code_index, ..t },
                    ..env
                })
            } else if func >= t.module.functions.len() || described >= env.signatures.len() {
                outcome is Halts
            } else {
                match locals {
                    Err(error) => outcome == (Outcome::Fails(
                        env,
                        ErrorView::InvalidWebAssembly {
                            message: error.message,
                            offset: error.offset,
                        },
                    )),
                    Ok(pairs) => {
                        &&& (forall|i: int| 0 <= i < pairs.len() ==> #[trigger] pairs[i] is Ok)
                            ==> {
                            &&& outcome matches Outcome::Next(after)
                            &&& after.result.code_index == t.code_index + 1
                            &&& after.result.wasm_file.funcs.len() == t.wasm_file.funcs.len() + 1
                            &&& are_read(pairs, after.result.wasm_file.funcs.last().locals)
                            &&& after == (EnvView {
                                result: TranslationView {
                                    bodies,
                                    code_index: after.result.code_index,
                                    wasm_file: WasmFileView {
                                        funcs: t.wasm_file.funcs.push(
                                            FunctionMetadataView {
                                                params: env.signatures[described].params,
                                                locals:
                                                    after.result.wasm_file.funcs.last().locals,
                                            },
                                        ),
                                        ..t.wasm_file
                                    },
                                    ..t
                                },
                                ..env
                            })
                        }
                        &&& forall|k: int|
                            0 <= k < pairs.len() && #[trigger] pairs[k] is Err && (forall|i: int|
                                0 <= i < k ==> #[trigger] pairs[i] is Ok) ==> outcome == (
                            Outcome::Fails(
                                env,
                                ErrorView::InvalidWebAssembly {
                                    message: pairs[k]->Err_0.message,
                                    offset: pairs[k]->Err_0.offset,
                                },
                            ))
                    },
                }
            }
        }),
{
    if config.generate_native_debuginfo {
        if let Ok(pairs) = locals {
            if forall|i: int| 0 <= i < pairs.len() ==> #[trigger] pairs[i] is Ok {
                lemma_locals(pairs);
            }
            let start = Seq::<(u32, WasmType)>::empty();
            assert forall|k: int|
                0 <= k < pairs.len() && #[trigger] pairs[k] is Err && (forall|i: int|
                    0 <= i < k ==> #[trigger] pairs[i] is Ok) implies fold(
                start,
                pairs,
                more_locals(),
            ) matches Outcome::Fails(_, error) && error == (ErrorView::InvalidWebAssembly {
                message: pairs[k]->Err_0.message,
                offset: pairs[k]->Err_0.offset,
            }) by {
                let first = pairs.take(k);
                assert forall|i: int| 0 <= i < first.len() implies #[trigger] first[i] is Ok by {
                    assert(pairs[i] is Ok);
                }
                lemma_locals(first);
                let state = fold(start, first, more_locals())->Next_0;
                lemma_fold_entry(start, pairs, k, more_locals(), state);
            }
        }
    }
}

} // verus!

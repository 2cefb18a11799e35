use miden_frontend::wasm::debuginfo::WasmTranslationConfig;
use miden_frontend::wasm::error::{ReadError, WasmError, WasmResult};
use miden_frontend::wasm::exported::exported_signatures;
use miden_frontend::wasm::index::{
    DefinedTableIndex, FuncIndex, FuncRefIndex, GlobalIndex, SignatureIndex,
};
use miden_frontend::wasm::module::{
    EntityIndex, EntityType, GlobalInit, Module, ModuleType, TableInitialValue,
};
use miden_frontend::wasm::module_env::ModuleEnvironment;
use miden_frontend::wasm::payload::{
    Composite, ConstOp, ConstOperator, DeclaredType, ElementEntry, ElementList, ElementPlace,
    Encoding, ExportEntry, ExportKind, GlobalEntry, ImportEntry, ImportKind, LocalNames,
    ModulePayload, NameEntry, NameSubsection, TableEntry,
};
use miden_frontend::wasm::raw::WasmFeatures;
use miden_frontend::wasm::text::{has_prefix, same_text};
use miden_frontend::wasm::types::{
    GlobalPlan, MemoryPlan, ModuleTypesBuilder, TablePlan, WasmFuncType, WasmHeapType, WasmRefType,
    WasmType,
};
use miden_frontend::wasm::warning::Warning;

const FUNCREF: WasmRefType = WasmRefType { nullable: true, heap_type: WasmHeapType::Func };
const TABLE: TablePlan = TablePlan { element: FUNCREF, minimum: 1, maximum: None };
const GLOBAL: GlobalPlan = GlobalPlan { ty: WasmType::I32, mutable: false };
const MEMORY: MemoryPlan = MemoryPlan { memory64: false, shared: false, minimum: 1, maximum: None };
const QUIET: WasmTranslationConfig =
    WasmTranslationConfig { generate_native_debuginfo: false, parse_wasm_debuginfo: false };
const DEBUG: WasmTranslationConfig =
    WasmTranslationConfig { generate_native_debuginfo: true, parse_wasm_debuginfo: false };

fn no_features() -> WasmFeatures {
    WasmFeatures {
        mutable_global: false,
        saturating_float_to_int: false,
        sign_extension: false,
        reference_types: false,
        multi_value: false,
        bulk_memory: false,
        simd: false,
        relaxed_simd: false,
        threads: false,
        tail_call: false,
        floats: false,
        multi_memory: false,
        exceptions: false,
        memory64: false,
        extended_const: false,
        component_model: false,
        function_references: false,
        memory_control: false,
        gc: false,
        component_model_values: false,
    }
}

fn error() -> ReadError {
    ReadError { message: String::from("broken"), offset: 42 }
}

fn operator(op: ConstOp, text: &str) -> ConstOperator {
    ConstOperator { op, text: String::from(text) }
}

fn func_type(params: Vec<WasmType>) -> Option<DeclaredType> {
    Some(DeclaredType {
        is_final: true,
        has_supertype: false,
        composite: Composite::Func(WasmFuncType { params, results: Vec::new() }),
    })
}

fn is_broken(result: WasmResult<()>) -> bool {
    match result {
        Err(WasmError::InvalidWebAssembly { message, offset }) => {
            message == "broken" && offset == 42
        }
        _ => false,
    }
}

fn unsupported(result: WasmResult<()>) -> String {
    match result {
        Err(WasmError::Unsupported(message)) => message,
        _ => panic!("supported"),
    }
}

/// An environment with two types and three functions, of the types 0, 1 and 0.
fn start<'a, 'd>(
    config: &'a WasmTranslationConfig,
    types: &'a mut ModuleTypesBuilder,
    warnings: &'a mut Vec<Warning>,
) -> ModuleEnvironment<'a, 'd> {
    let mut env = ModuleEnvironment::new(config, no_features(), types, warnings);
    assert!(env.translate_payload(ModulePayload::Version { encoding: Encoding::Module }).is_ok());
    let declared = vec![func_type(vec![]), func_type(vec![WasmType::I64])];
    assert!(env.translate_payload(ModulePayload::TypeSection(declared)).is_ok());
    let functions = vec![Ok(0), Ok(1), Ok(0)];
    assert!(env.translate_payload(ModulePayload::FunctionSection(functions)).is_ok());
    env
}

#[test]
fn a_component_payload_is_not_supported() {
    let mut types = ModuleTypesBuilder::new();
    let mut warnings = Vec::new();
    let mut env = ModuleEnvironment::new(&QUIET, no_features(), &mut types, &mut warnings);
    let payload = ModulePayload::Version { encoding: Encoding::Component };
    assert_eq!(unsupported(env.translate_payload(payload)), "component model");
}

#[test]
fn types_are_interned() {
    let mut types = ModuleTypesBuilder::new();
    let mut warnings = Vec::new();
    let mut env = ModuleEnvironment::new(&QUIET, no_features(), &mut types, &mut warnings);
    let declared =
        vec![func_type(vec![WasmType::I32]), func_type(vec![]), func_type(vec![WasmType::I32])];
    assert!(env.translate_payload(ModulePayload::TypeSection(declared)).is_ok());
    assert_eq!(
        env.result.module.types.entries.values().copied().collect::<Vec<_>>(),
        vec![
            ModuleType::Function(SignatureIndex(0)),
            ModuleType::Function(SignatureIndex(1)),
            ModuleType::Function(SignatureIndex(0)),
        ]
    );
    assert_eq!(types.len(), 2);
}

#[test]
fn read_errors_end_every_section() {
    let mut types = ModuleTypesBuilder::new();
    let mut warnings = Vec::new();
    let mut env = start(&QUIET, &mut types, &mut warnings);
    assert!(is_broken(env.translate_payload(ModulePayload::ImportSection(vec![Err(error())]))));
    assert!(is_broken(
        env.translate_payload(ModulePayload::FunctionSection(vec![Ok(1), Err(error()), Ok(0)]))
    ));
    assert_eq!(env.result.module.functions.entries.len(), 4);
    assert!(is_broken(env.translate_payload(ModulePayload::TableSection(vec![Err(error())]))));
    assert!(is_broken(
        env.translate_payload(ModulePayload::MemorySection(vec![Ok(MEMORY), Err(error())]))
    ));
    assert!(is_broken(env.translate_payload(ModulePayload::GlobalSection(vec![Err(error())]))));
    assert!(is_broken(env.translate_payload(ModulePayload::ExportSection(vec![Err(error())]))));
    assert!(is_broken(env.translate_payload(ModulePayload::ElementSection(vec![Err(error())]))));
    assert!(env.translate_payload(ModulePayload::NameSection(vec![Err(error())])).is_ok());
}

#[test]
fn imports_come_before_functions_of_the_module() {
    let mut types = ModuleTypesBuilder::new();
    let mut warnings = Vec::new();
    let mut env = ModuleEnvironment::new(&QUIET, no_features(), &mut types, &mut warnings);
    let declared = vec![func_type(vec![])];
    assert!(env.translate_payload(ModulePayload::TypeSection(declared)).is_ok());
    let imports = vec![
        Ok(ImportEntry { module: "m", name: "f", ty: ImportKind::Func(0) }),
        Ok(ImportEntry { module: "m", name: "t", ty: ImportKind::Table(TABLE) }),
        Ok(ImportEntry { module: "m", name: "g", ty: ImportKind::Global(GLOBAL) }),
        Ok(ImportEntry { module: "m", name: "f", ty: ImportKind::Func(0) }),
    ];
    assert!(env.translate_payload(ModulePayload::ImportSection(imports)).is_ok());
    let module = &env.result.module;
    assert_eq!(module.num_imported_funcs, 2);
    assert_eq!(module.num_imported_tables, 1);
    assert_eq!(module.num_imported_globals, 1);
    assert_eq!(module.initializers.len(), 4);
    assert_eq!(module.tables.entries.values().copied().collect::<Vec<_>>(), vec![TABLE]);
    assert_eq!(module.globals.entries.values().copied().collect::<Vec<_>>(), vec![GLOBAL]);
    assert!(module.global_initializers.entries.is_empty());
    assert_eq!(env.result.debuginfo.wasm_file.imported_func_count, 2);
    assert!(env.translate_payload(ModulePayload::FunctionSection(vec![Ok(0)])).is_ok());
    assert_eq!(env.result.module.functions.entries.len(), 3);
}

#[test]
fn tables_start_as_their_expressions_say() {
    let mut types = ModuleTypesBuilder::new();
    let mut warnings = Vec::new();
    let mut env = start(&QUIET, &mut types, &mut warnings);
    let tables = vec![
        Ok(TableEntry { ty: TABLE, init: None }),
        Ok(TableEntry { ty: TABLE, init: Some(Ok(operator(ConstOp::RefNull, ""))) }),
        Ok(TableEntry { ty: TABLE, init: Some(Ok(operator(ConstOp::RefFunc(2), ""))) }),
    ];
    assert!(env.translate_payload(ModulePayload::TableSection(tables)).is_ok());
    let values = &env.result.module.table_initialization.initial_values.entries;
    assert!(matches!(values[DefinedTableIndex(0)], TableInitialValue::Null { .. }));
    assert!(matches!(values[DefinedTableIndex(1)], TableInitialValue::Null { .. }));
    assert!(matches!(values[DefinedTableIndex(2)], TableInitialValue::FuncRef(FuncIndex(2))));
    assert_eq!(env.result.module.functions.entries[FuncIndex(2)].func_ref, FuncRefIndex(0));
    let broken = vec![Ok(TableEntry { ty: TABLE, init: Some(Err(error())) })];
    assert!(is_broken(env.translate_payload(ModulePayload::TableSection(broken))));
    assert_eq!(env.result.module.tables.entries.len(), 4);
    assert_eq!(env.result.module.table_initialization.initial_values.entries.len(), 3);
    let other = vec![Ok(TableEntry { ty: TABLE, init: Some(Ok(operator(ConstOp::Other, "Nop"))) })];
    assert_eq!(
        unsupported(env.translate_payload(ModulePayload::TableSection(other))),
        "unsupported init expr in table section: Nop"
    );
}

#[test]
fn globals_start_as_their_expressions_say() {
    let mut types = ModuleTypesBuilder::new();
    let mut warnings = Vec::new();
    let mut env = start(&QUIET, &mut types, &mut warnings);
    let ops = [
        ConstOp::I32Const(-1),
        ConstOp::I64Const(5),
        ConstOp::F32Const(6),
        ConstOp::F64Const(7),
        ConstOp::V128Const(8),
        ConstOp::GlobalGet(0),
    ];
    let globals =
        ops.iter().map(|op| Ok(GlobalEntry { ty: GLOBAL, init: Ok(operator(*op, "")) })).collect();
    assert!(env.translate_payload(ModulePayload::GlobalSection(globals)).is_ok());
    assert_eq!(
        env.result.module.global_initializers.entries.values().copied().collect::<Vec<_>>(),
        vec![
            GlobalInit::I32Const(-1),
            GlobalInit::I64Const(5),
            GlobalInit::F32Const(6),
            GlobalInit::F64Const(7),
            GlobalInit::V128Const(8),
            GlobalInit::GetGlobal(GlobalIndex(0)),
        ]
    );
    assert_eq!(env.result.module.globals.entries.len(), 6);
    let other = vec![Ok(GlobalEntry { ty: GLOBAL, init: Ok(operator(ConstOp::Other, "Nop")) })];
    assert_eq!(
        unsupported(env.translate_payload(ModulePayload::GlobalSection(other))),
        "unsupported init expr in global section: Nop"
    );
    let broken = vec![Ok(GlobalEntry { ty: GLOBAL, init: Err(error()) })];
    assert!(is_broken(env.translate_payload(ModulePayload::GlobalSection(broken))));
    assert_eq!(env.result.module.globals.entries.len(), 6);
}

#[test]
fn a_name_that_is_exported_again_keeps_its_place() {
    let mut types = ModuleTypesBuilder::new();
    let mut warnings = Vec::new();
    let mut env = start(&QUIET, &mut types, &mut warnings);
    let exports = vec![
        Ok(ExportEntry { name: "a", kind: ExportKind::Func, index: 2 }),
        Ok(ExportEntry { name: "b", kind: ExportKind::Table, index: 4 }),
        Ok(ExportEntry { name: "a", kind: ExportKind::Global, index: 5 }),
    ];
    assert!(env.translate_payload(ModulePayload::ExportSection(exports)).is_ok());
    let exports = &env.result.module.exports;
    assert_eq!(exports.len(), 2);
    assert_eq!(exports[0].name, "a");
    assert_eq!(exports[0].entity, EntityIndex::Global(GlobalIndex(5)));
    assert_eq!(exports[1].name, "b");
    assert!(env.result.module.functions.entries[FuncIndex(2)].is_escaping());
}

#[test]
fn escaping_twice_keeps_the_number() {
    let mut types = ModuleTypesBuilder::new();
    let mut warnings = Vec::new();
    let mut env = start(&QUIET, &mut types, &mut warnings);
    for index in [1, 0, 1] {
        let export = ExportEntry { name: "f", kind: ExportKind::Func, index };
        assert!(env.translate_payload(ModulePayload::ExportSection(vec![Ok(export)])).is_ok());
    }
    let functions = &env.result.module.functions.entries;
    assert_eq!(functions[FuncIndex(1)].func_ref, FuncRefIndex(0));
    assert_eq!(functions[FuncIndex(0)].func_ref, FuncRefIndex(1));
    assert!(!functions[FuncIndex(2)].is_escaping());
    assert_eq!(env.result.module.num_escaped_funcs, 2);
}

#[test]
fn the_start_function_escapes() {
    let mut types = ModuleTypesBuilder::new();
    let mut warnings = Vec::new();
    let mut env = start(&QUIET, &mut types, &mut warnings);
    assert!(env.translate_payload(ModulePayload::StartSection { func: 1 }).is_ok());
    assert_eq!(env.result.module.start_func, Some(FuncIndex(1)));
    assert!(env.result.module.functions.entries[FuncIndex(1)].is_escaping());
}

#[test]
fn elements_that_are_not_supported() {
    let mut types = ModuleTypesBuilder::new();
    let mut warnings = Vec::new();
    let mut env = start(&QUIET, &mut types, &mut warnings);
    let expressions = vec![
        Ok(operator(ConstOp::RefFunc(0), "")),
        Ok(operator(ConstOp::I32Const(1), "I32Const { value: 1 }")),
    ];
    let segment = ElementEntry {
        place: ElementPlace::Passive,
        items: ElementList::Expressions(expressions),
    };
    assert_eq!(
        unsupported(env.translate_payload(ModulePayload::ElementSection(vec![Ok(segment)]))),
        "unsupported init expr in element section: I32Const { value: 1 }"
    );
    assert!(env.result.module.functions.entries[FuncIndex(0)].is_escaping());
    assert!(env.result.module.passive_elements.is_empty());
    let segment = ElementEntry {
        place: ElementPlace::Active {
            table_index: None,
            offset: Ok(operator(ConstOp::RefNull, "RefNull")),
        },
        items: ElementList::Functions(vec![]),
    };
    assert_eq!(
        unsupported(env.translate_payload(ModulePayload::ElementSection(vec![Ok(segment)]))),
        "unsupported init expr in element section: RefNull"
    );
    let segment = ElementEntry {
        place: ElementPlace::Active { table_index: None, offset: Err(error()) },
        items: ElementList::Functions(vec![Ok(1)]),
    };
    assert!(is_broken(env.translate_payload(ModulePayload::ElementSection(vec![Ok(segment)]))));
    assert!(env.result.module.functions.entries[FuncIndex(1)].is_escaping());
    let segment = ElementEntry {
        place: ElementPlace::Declared,
        items: ElementList::Functions(vec![Ok(2), Err(error())]),
    };
    assert!(is_broken(env.translate_payload(ModulePayload::ElementSection(vec![Ok(segment)]))));
    assert!(env.result.module.functions.entries[FuncIndex(2)].is_escaping());
    assert!(env.result.module.table_initialization.segments.is_empty());
}

#[test]
fn names_of_globals_but_not_of_the_reserved_one() {
    let mut types = ModuleTypesBuilder::new();
    let mut warnings = Vec::new();
    let mut env = start(&QUIET, &mut types, &mut warnings);
    let names = vec![
        Ok(NameEntry { index: 3, name: "g" }),
        Ok(NameEntry { index: u32::MAX, name: "none" }),
    ];
    let sections = vec![Ok(NameSubsection::Global(names)), Ok(NameSubsection::Other)];
    assert!(env.translate_payload(ModulePayload::NameSection(sections)).is_ok());
    let named = &env.result.module.name_section.globals_names;
    assert_eq!(named.len(), 1);
    assert_eq!(named[&3], "g");
}

#[test]
fn names_of_locals_up_to_the_first_error() {
    let mut types = ModuleTypesBuilder::new();
    let mut warnings = Vec::new();
    let mut env = start(&DEBUG, &mut types, &mut warnings);
    let locals = vec![
        Ok(LocalNames { index: 0, names: vec![Ok(NameEntry { index: 0, name: "a" })] }),
        Ok(LocalNames { index: 3, names: vec![Ok(NameEntry { index: 0, name: "b" })] }),
        Ok(LocalNames {
            index: 0,
            names: vec![Ok(NameEntry { index: 1, name: "c" }), Err(error())],
        }),
        Ok(LocalNames { index: 1, names: vec![Ok(NameEntry { index: 0, name: "d" })] }),
    ];
    let sections = vec![Ok(NameSubsection::Local(locals)), Ok(NameSubsection::Module("late"))];
    assert!(env.translate_payload(ModulePayload::NameSection(sections)).is_ok());
    let names = &env.result.module.name_section;
    assert_eq!(names.locals_names.len(), 1);
    assert_eq!(names.locals_names[&0].len(), 2);
    assert_eq!(names.locals_names[&0][&1], "c");
    assert!(names.module_name.is_none());
}

#[test]
fn the_code_section_is_found_again() {
    let mut types = ModuleTypesBuilder::new();
    let mut warnings = Vec::new();
    let mut env = start(&QUIET, &mut types, &mut warnings);
    assert!(env.translate_payload(ModulePayload::CodeSectionStart { start: 77 }).is_ok());
    assert_eq!(env.result.debuginfo.wasm_file.code_section_offset, 77);
    assert!(env.translate_payload(ModulePayload::DataCountSection).is_ok());
    assert!(env.result.debuginfo.wasm_file.path.is_none());
}

#[test]
fn exported_signatures_are_sorted_and_distinct() {
    let mut module = Module::new();
    for signature in [7, 3, 5, 7, 1] {
        module.push_function(SignatureIndex(signature));
    }
    for func in [0, 3, 2, 4, 0] {
        module.flag_func_escaped(FuncIndex(func));
    }
    assert_eq!(
        exported_signatures(&module.functions),
        vec![SignatureIndex(1), SignatureIndex(5), SignatureIndex(7)]
    );
}

#[test]
fn memories_and_tags_are_no_entities() {
    let mut module = Module::new();
    assert!(!module.has_entity(&EntityType::Memory(MEMORY)));
    assert!(!module.has_entity(&EntityType::Tag(0)));
    assert!(module.has_entity(&EntityType::Table(TABLE)));
    assert_eq!(
        module.push_type(EntityType::Function(SignatureIndex(4))),
        EntityIndex::Function(FuncIndex(0))
    );
    module.declare_import("m", "g", EntityType::Global(GLOBAL));
    assert_eq!(module.initializers.len(), 1);
    assert_eq!(
        module.push_type(EntityType::Global(GLOBAL)),
        EntityIndex::Global(GlobalIndex(1))
    );
}

#[test]
fn data_up_to_the_first_error() {
    let mut types = ModuleTypesBuilder::new();
    let mut warnings = Vec::new();
    let mut env = start(&QUIET, &mut types, &mut warnings);
    let first: &[u8] = &[1, 2];
    let lost: &[u8] = &[3];
    let segments = vec![Ok(first), Err(error()), Ok(lost)];
    assert!(is_broken(env.translate_payload(ModulePayload::DataSection(segments))));
    assert_eq!(env.result.data, vec![first]);
}

#[test]
fn a_broken_part_of_the_names_is_a_warning() {
    let mut types = ModuleTypesBuilder::new();
    let mut warnings = Vec::new();
    let mut env = start(&QUIET, &mut types, &mut warnings);
    assert!(env.translate_payload(ModulePayload::NameSection(vec![Err(error())])).is_ok());
    assert!(env.translate_payload(ModulePayload::NameSection(vec![])).is_ok());
    assert_eq!(warnings.len(), 1);
    assert!(matches!(
        &warnings[0],
        Warning::NameSection(WasmError::InvalidWebAssembly { message, offset: 42 })
            if message == "broken"
    ));
}

#[test]
fn interning_again_gives_the_same_number() {
    let mut types = ModuleTypesBuilder::new();
    let signature = |params: Vec<WasmType>| WasmFuncType { params, results: Vec::new() };
    let first = types.wasm_func_type(signature(vec![WasmType::F64]));
    let second = types.wasm_func_type(signature(vec![]));
    assert_eq!(first, SignatureIndex(0));
    assert_eq!(second, SignatureIndex(1));
    assert_eq!(types.wasm_func_type(signature(vec![WasmType::F64])), first);
    let copy = types.copy();
    assert_eq!(copy.len(), 2);
    assert_eq!(copy.get(SignatureIndex(0)).unwrap().params, vec![WasmType::F64]);
}

#[test]
fn text_is_compared_letter_by_letter() {
    assert!(same_text("name", "name"));
    assert!(!same_text("name", "names"));
    assert!(!same_text("name", "nome"));
    assert!(has_prefix(".debug_info", ".debug_"));
    assert!(!has_prefix(".debug", ".debug_"));
    assert!(has_prefix("\u{e9}t\u{e9}", "\u{e9}"));
}

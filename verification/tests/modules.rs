use miden_frontend::wasm::debuginfo::{WasmFileInfo, WasmTranslationConfig};
use miden_frontend::wasm::error::{WasmError, WasmResult};
use miden_frontend::wasm::index::{
    DefinedFuncIndex, DefinedGlobalIndex, DefinedTableIndex, FuncIndex, FuncRefIndex, GlobalIndex, SignatureIndex,
    TableIndex, TypeIndex,
};
use miden_frontend::wasm::module::{
    EntityIndex, GlobalInit, Initializer, ModuleType, TableInitialValue,
};
use miden_frontend::wasm::module_env::ModuleEnvironment;
use miden_frontend::wasm::raw::WasmFeatures;
use miden_frontend::wasm::translation::ModuleTranslation;
use miden_frontend::wasm::types::{ModuleTypesBuilder, WasmHeapType, WasmRefType, WasmType};
use miden_frontend::wasm::warning::Warning;

const FUNCREF: WasmRefType = WasmRefType { nullable: true, heap_type: WasmHeapType::Func };

fn features() -> WasmFeatures {
    WasmFeatures {
        mutable_global: true,
        saturating_float_to_int: true,
        sign_extension: true,
        reference_types: true,
        multi_value: true,
        bulk_memory: true,
        simd: true,
        relaxed_simd: false,
        threads: false,
        tail_call: false,
        floats: true,
        multi_memory: false,
        exceptions: false,
        memory64: false,
        extended_const: false,
        component_model: false,
        function_references: false,
        memory_control: false,
        gc: false,
        component_model_values: false,
    }
}

fn config(generate_native_debuginfo: bool) -> WasmTranslationConfig {
    WasmTranslationConfig { generate_native_debuginfo, parse_wasm_debuginfo: false }
}

fn leb(mut n: usize) -> Vec<u8> {
    let mut bytes = Vec::new();
    loop {
        let low = (n & 0x7f) as u8;
        n >>= 7;
        if n == 0 {
            bytes.push(low);
            return bytes;
        }
        bytes.push(low | 0x80);
    }
}

fn text(s: &str) -> Vec<u8> {
    let mut bytes = leb(s.len());
    bytes.extend_from_slice(s.as_bytes());
    bytes
}

fn section(id: u8, contents: &[u8]) -> Vec<u8> {
    let mut bytes = vec![id];
    bytes.extend(leb(contents.len()));
    bytes.extend_from_slice(contents);
    bytes
}

fn list(items: &[Vec<u8>]) -> Vec<u8> {
    let mut bytes = leb(items.len());
    for item in items {
        bytes.extend_from_slice(item);
    }
    bytes
}

fn named(name: &str, rest: &[u8]) -> Vec<u8> {
    let mut bytes = text(name);
    bytes.extend_from_slice(rest);
    bytes
}

fn import(module: &str, name: &str, ty: &[u8]) -> Vec<u8> {
    let mut bytes = text(module);
    bytes.extend(named(name, ty));
    bytes
}

fn sized(contents: &[u8]) -> Vec<u8> {
    let mut bytes = leb(contents.len());
    bytes.extend_from_slice(contents);
    bytes
}

fn module(sections: &[Vec<u8>]) -> Vec<u8> {
    let mut bytes = vec![0, 0x61, 0x73, 0x6d, 1, 0, 0, 0];
    for section in sections {
        bytes.extend_from_slice(section);
    }
    bytes
}

fn translate_with<'d>(
    features: WasmFeatures,
    config: &WasmTranslationConfig,
    data: &'d [u8],
) -> Option<WasmResult<ModuleTranslation<'d>>> {
    let mut types = ModuleTypesBuilder::new();
    ModuleEnvironment::try_translate(config, features, &mut types, &mut Vec::new(), 0, data)
}

fn translate<'d>(data: &'d [u8]) -> ModuleTranslation<'d> {
    match translate_with(features(), &config(false), data) {
        Some(Ok(translation)) => translation,
        Some(Err(e)) => panic!("{:?}", e),
        None => panic!("no result"),
    }
}

fn failure(features: WasmFeatures, data: &[u8]) -> WasmError {
    match translate_with(features, &config(false), data) {
        Some(Err(e)) => e,
        Some(Ok(_)) => panic!("translated"),
        None => panic!("no result"),
    }
}

fn func_type(params: &[u8], results: &[u8]) -> Vec<u8> {
    let mut bytes = vec![0x60];
    bytes.extend(sized(params));
    bytes.extend(sized(results));
    bytes
}

/// Types `(i32, i32) -> i32` and `() -> ()`.
fn types() -> Vec<u8> {
    section(1, &list(&[func_type(&[0x7f, 0x7f], &[0x7f]), func_type(&[], &[])]))
}

/// Functions of the types 0 and 1.
fn functions() -> Vec<u8> {
    section(3, &list(&[vec![0], vec![1]]))
}

/// Their bodies. The first declares two locals of type i64 and one of type f32.
fn code() -> Vec<u8> {
    section(
        10,
        &list(&[
            sized(&[2, 2, 0x7e, 1, 0x7d, 0x20, 0, 0x0b]),
            sized(&[0, 0x0b]),
        ]),
    )
}

fn sample() -> Vec<u8> {
    module(&[
        types(),
        section(
            2,
            &list(&[
                import("env", "f", &[0, 1]),
                import("env", "t", &[1, 0x70, 1, 5, 9]),
                import("env", "g", &[3, 0x7f, 0]),
            ]),
        ),
        functions(),
        section(4, &list(&[vec![0x70, 0, 10]])),
        section(5, &list(&[vec![0, 1]])),
        section(
            6,
            &list(&[
                vec![0x7f, 1, 0x41, 7, 0x0b],
                vec![0x7f, 0, 0x23, 0, 0x0b],
            ]),
        ),
        section(
            7,
            &list(&[
                named("main", &[0, 1]),
                named("tab", &[1, 1]),
                named("mem", &[2, 0]),
                named("glob", &[3, 1]),
                named("again", &[0, 1]),
            ]),
        ),
        section(8, &[2]),
        section(9, &list(&[vec![2, 1, 0x41, 3, 0x0b, 0, 2, 1, 0]])),
        code(),
        section(
            0,
            &named(
                "name",
                &[
                    section(0, &text("demo")),
                    section(1, &list(&[named_index(0, "imported"), named_index(9, "nobody")])),
                    section(
                        2,
                        &list(&[
                            [vec![1], list(&[named_index(0, "x"), named_index(1, "y")])].concat(),
                            [vec![7], list(&[named_index(0, "z")])].concat(),
                        ]),
                    ),
                    section(7, &list(&[named_index(2, "answer")])),
                ]
                .concat(),
            ),
        ),
    ])
}

fn named_index(index: u8, name: &str) -> Vec<u8> {
    let mut bytes = vec![index];
    bytes.extend(text(name));
    bytes
}

#[test]
fn entities_of_a_module() {
    let data = sample();
    let t = translate(&data);
    let m = &t.module;
    assert_eq!(m.types.entries.len(), 2);
    assert_eq!(m.types.entries[TypeIndex(1)], ModuleType::Function(SignatureIndex(1)));
    assert_eq!(m.num_imported_funcs, 1);
    assert_eq!(m.num_imported_tables, 1);
    assert_eq!(m.num_imported_globals, 1);
    assert_eq!(m.num_imported_memories, 0);
    assert_eq!(t.debuginfo.wasm_file.imported_func_count, 1);
    assert_eq!(m.functions.entries.len(), 3);
    assert_eq!(m.functions.entries[FuncIndex(0)].signature, SignatureIndex(1));
    assert_eq!(m.functions.entries[FuncIndex(1)].signature, SignatureIndex(0));
    assert_eq!(m.functions.entries[FuncIndex(2)].signature, SignatureIndex(1));
    assert_eq!(m.tables.entries.len(), 2);
    assert_eq!(m.tables.entries[TableIndex(0)].element, FUNCREF);
    assert_eq!((m.tables.entries[TableIndex(0)].minimum, m.tables.entries[TableIndex(0)].maximum), (5, Some(9)));
    assert_eq!((m.tables.entries[TableIndex(1)].minimum, m.tables.entries[TableIndex(1)].maximum), (10, None));
    assert_eq!(m.globals.entries.len(), 3);
    assert_eq!((m.globals.entries[GlobalIndex(0)].ty, m.globals.entries[GlobalIndex(0)].mutable), (WasmType::I32, false));
    assert_eq!((m.globals.entries[GlobalIndex(1)].ty, m.globals.entries[GlobalIndex(1)].mutable), (WasmType::I32, true));
    assert_eq!(m.initializers.len(), 3);
    let Initializer::Import { name, field, index } = &m.initializers[2];
    assert_eq!((name.as_str(), field.as_str()), ("env", "g"));
    assert_eq!(*index, EntityIndex::Global(GlobalIndex(0)));
}

#[test]
fn what_globals_and_tables_start_as() {
    let data = sample();
    let t = translate(&data);
    assert_eq!(
        t.module.global_initializers.entries.values().copied().collect::<Vec<_>>(),
        vec![GlobalInit::I32Const(7), GlobalInit::GetGlobal(GlobalIndex(0))]
    );
    assert_eq!(t.module.table_initialization.initial_values.entries.len(), 1);
    assert!(matches!(
        &t.module.table_initialization.initial_values.entries[DefinedTableIndex(0)],
        TableInitialValue::Null { precomputed } if precomputed.is_empty()
    ));
    assert_eq!(t.module.table_initialization.segments.len(), 1);
    let segment = &t.module.table_initialization.segments[0];
    assert_eq!(segment.table_index, TableIndex(1));
    assert_eq!((segment.base, segment.offset), (None, 3));
    assert_eq!(segment.elements, vec![FuncIndex(1), FuncIndex(0)]);
}

#[test]
fn exports_keep_their_order() {
    let data = sample();
    let t = translate(&data);
    let exports: Vec<(&str, EntityIndex)> =
        t.module.exports.iter().map(|e| (e.name.as_str(), e.entity)).collect();
    assert_eq!(exports.len(), 5);
    assert_eq!(exports[0], ("main", EntityIndex::Function(FuncIndex(1))));
    assert_eq!(exports[1], ("tab", EntityIndex::Table(TableIndex(1))));
    assert_eq!(exports[4], ("again", EntityIndex::Function(FuncIndex(1))));
}

#[test]
fn functions_escape_in_the_order_of_their_first_use() {
    let data = sample();
    let t = translate(&data);
    assert_eq!(t.module.functions.entries[FuncIndex(1)].func_ref, FuncRefIndex(0));
    assert_eq!(t.module.functions.entries[FuncIndex(2)].func_ref, FuncRefIndex(1));
    assert_eq!(t.module.functions.entries[FuncIndex(0)].func_ref, FuncRefIndex(2));
    assert_eq!(t.module.num_escaped_funcs, 3);
    assert_eq!(t.module.start_func, Some(FuncIndex(2)));
    assert_eq!(t.exported_signatures, vec![SignatureIndex(0), SignatureIndex(1)]);
}

#[test]
fn only_signatures_of_escaping_functions_are_exported() {
    let data = module(&[types(), functions(), section(7, &list(&[named("a", &[0, 1])])), code()]);
    let t = translate(&data);
    assert!(!t.module.functions.entries[FuncIndex(0)].is_escaping());
    assert_eq!(t.exported_signatures, vec![SignatureIndex(1)]);
}

#[test]
fn names_of_entities() {
    let data = sample();
    let t = translate(&data);
    let names = &t.module.name_section;
    assert_eq!(names.module_name.as_deref(), Some("demo"));
    assert_eq!(names.func_names.len(), 1);
    assert_eq!(names.func_names[&0], "imported");
    assert_eq!(names.globals_names[&2], "answer");
    assert!(names.locals_names.is_empty());
}

#[test]
fn names_of_locals_come_with_debug_information() {
    let data = sample();
    let t = match translate_with(features(), &config(true), &data) {
        Some(Ok(t)) => t,
        _ => panic!("not translated"),
    };
    let names = &t.module.name_section.locals_names;
    assert_eq!(names.len(), 1);
    assert_eq!(names[&1].len(), 2);
    assert_eq!(names[&1][&0], "x");
    assert_eq!(names[&1][&1], "y");
}

#[test]
fn a_broken_name_section_is_no_error() {
    let mut parts = section(0, &text("kept"));
    parts.extend(section(1, &list(&[named_index(0, "first"), vec![1, 9, 0x61]])));
    parts.extend(section(7, &list(&[named_index(0, "lost")])));
    let data = module(&[types(), functions(), code(), section(0, &named("name", &parts))]);
    let t = translate(&data);
    let names = &t.module.name_section;
    assert_eq!(names.module_name.as_deref(), Some("kept"));
    assert_eq!(names.func_names[&0], "first");
    assert_eq!(names.func_names.len(), 1);
    assert!(names.globals_names.is_empty());
}

#[test]
fn a_name_section_that_announces_too_many_names_is_no_error() {
    let parts = section(1, &[0xff, 0xff, 0xff, 0xff, 0x0f]);
    let data = module(&[types(), functions(), code(), section(0, &named("name", &parts))]);
    assert!(translate(&data).module.name_section.func_names.is_empty());
}

#[test]
fn function_bodies_and_where_they_are() {
    let data = sample();
    let t = translate(&data);
    let code = code();
    let start = data.windows(code.len()).position(|w| w == code).unwrap() + 2;
    assert_eq!(t.debuginfo.wasm_file.code_section_offset, start as u64);
    assert!(t.debuginfo.wasm_file.funcs.is_empty());
    assert_eq!(t.function_body_inputs.entries.len(), 2);
    let first = &t.function_body_inputs.entries[DefinedFuncIndex(0)];
    assert_eq!(first.body.range(), start + 2..start + 10);
    assert_eq!(&data[first.body.range()], &[2, 2, 0x7e, 1, 0x7d, 0x20, 0, 0x0b]);
    let mut indices = Vec::new();
    for (_, body) in t.function_body_inputs.entries {
        indices.push(body.validator.into_validator(Default::default()).index());
    }
    assert_eq!(indices, vec![1, 2]);
}

#[test]
fn debug_information_describes_functions() {
    let data = sample();
    let t = match translate_with(features(), &config(true), &data) {
        Some(Ok(t)) => t,
        _ => panic!("not translated"),
    };
    let funcs = &t.debuginfo.wasm_file.funcs;
    assert_eq!(funcs.len(), 2);
    assert_eq!(funcs[0].params, vec![WasmType::I32, WasmType::I32]);
    assert_eq!(funcs[0].locals, vec![(2, WasmType::I64), (1, WasmType::F32)]);
    assert!(funcs[1].params.is_empty());
    assert!(funcs[1].locals.is_empty());
}

#[test]
fn broken_locals_matter_only_to_debug_information() {
    let data = module(&[
        types(),
        section(3, &list(&[vec![1]])),
        section(10, &list(&[sized(&[1, 1, 0x01])])),
    ]);
    assert!(matches!(translate_with(features(), &config(false), &data), Some(Ok(_))));
    match translate_with(features(), &config(true), &data) {
        Some(Err(WasmError::InvalidWebAssembly { offset, .. })) => {
            assert_eq!(offset, data.len() - 1);
        }
        _ => panic!("no error"),
    }
}

#[test]
fn locals_that_are_announced_but_missing_are_an_error() {
    let data = module(&[
        types(),
        section(3, &list(&[vec![1]])),
        section(10, &list(&[sized(&[0xff, 0xff, 0xff, 0xff, 0x0f])])),
    ]);
    assert!(matches!(
        translate_with(features(), &config(true), &data),
        Some(Err(WasmError::InvalidWebAssembly { .. }))
    ));
}

#[test]
fn sixty_four_bit_offsets_are_allowed_with_the_proposal() {
    let data = module(&[
        types(),
        section(3, &list(&[vec![1]])),
        section(
            10,
            &list(&[sized(&[0, 0x28, 2, 0x80, 0x80, 0x80, 0x80, 0x80, 0x01, 0x0b])]),
        ),
    ]);
    for memory64 in [false, true] {
        let t = match translate_with(WasmFeatures { memory64, ..features() }, &config(false), &data) {
            Some(Ok(t)) => t,
            _ => panic!("not translated"),
        };
        let body = &t.function_body_inputs.entries[DefinedFuncIndex(0)].body;
        let first = body.get_operators_reader().unwrap().read();
        assert_eq!(first.is_ok(), memory64);
    }
}

#[test]
fn types_are_available_at_the_end() {
    let data = sample();
    let t = translate(&data);
    assert_eq!(t.get_types().type_count(), 2);
    assert_eq!(t.get_types().core_function_count(), 3);
}

#[test]
fn translate_gives_what_try_translate_gives() {
    let data = sample();
    let config = config(false);
    let mut types = ModuleTypesBuilder::new();
    let mut warnings = Vec::new();
    let env = ModuleEnvironment::new(&config, features(), &mut types, &mut warnings);
    let t = match env.translate(0, &data) {
        Ok(t) => t,
        Err(e) => panic!("{:?}", e),
    };
    assert_eq!(
        format!("{:?}", t.module.functions),
        format!("{:?}", translate(&data).module.functions)
    );
    assert_eq!(types.len(), 2);
}

#[test]
fn modules_share_interned_types() {
    let data = sample();
    let other = module(&[section(
        1,
        &list(&[func_type(&[], &[]), func_type(&[0x7e], &[]), func_type(&[], &[])]),
    )]);
    let config = config(false);
    let mut types = ModuleTypesBuilder::new();
    assert!(ModuleEnvironment::try_translate(&config, features(), &mut types, &mut Vec::new(), 0, &data).is_some());
    let t = match ModuleEnvironment::try_translate(&config, features(), &mut types, &mut Vec::new(), 0, &other) {
        Some(Ok(t)) => t,
        _ => panic!("not translated"),
    };
    assert_eq!(
        t.module.types.entries.values().copied().collect::<Vec<_>>(),
        vec![
            ModuleType::Function(SignatureIndex(1)),
            ModuleType::Function(SignatureIndex(2)),
            ModuleType::Function(SignatureIndex(1)),
        ]
    );
    assert_eq!(types.len(), 3);
    let added = types.get(SignatureIndex(2)).unwrap();
    assert_eq!(added.params, vec![WasmType::I64]);
    assert!(added.results.is_empty());
    assert!(types.get(SignatureIndex(3)).is_none());
}

#[test]
fn all_value_types() {
    let data = module(&[section(
        1,
        &list(&[func_type(&[0x7f, 0x7e, 0x7d, 0x7c, 0x7b, 0x70, 0x6f], &[])]),
    )]);
    let config = config(false);
    let mut types = ModuleTypesBuilder::new();
    assert!(ModuleEnvironment::try_translate(&config, features(), &mut types, &mut Vec::new(), 0, &data).is_some());
    let externref = WasmRefType { nullable: true, heap_type: WasmHeapType::Extern };
    assert_eq!(
        types.get(SignatureIndex(0)).unwrap().params,
        vec![
            WasmType::I32,
            WasmType::I64,
            WasmType::F32,
            WasmType::F64,
            WasmType::V128,
            WasmType::Ref(FUNCREF),
            WasmType::Ref(externref),
        ]
    );
}

#[test]
fn references_to_types_of_the_module() {
    let data = module(&[
        section(1, &list(&[func_type(&[], &[]), vec![0x60, 1, 0x64, 0, 0]])),
        section(2, &list(&[import("m", "t", &[1, 0x63, 0, 0, 1])])),
    ]);
    let config = config(false);
    let features = WasmFeatures { function_references: true, ..features() };
    let mut types = ModuleTypesBuilder::new();
    let t = match ModuleEnvironment::try_translate(&config, features, &mut types, &mut Vec::new(), 0, &data) {
        Some(Ok(t)) => t,
        Some(Err(e)) => panic!("{:?}", e),
        None => panic!("no result"),
    };
    let known = WasmRefType { nullable: false, heap_type: WasmHeapType::Id(0) };
    assert_eq!(types.get(SignatureIndex(1)).unwrap().params, vec![WasmType::Ref(known)]);
    let element = WasmRefType { nullable: true, heap_type: WasmHeapType::Module(0) };
    assert_eq!(t.module.tables.entries[TableIndex(0)].element, element);
}

#[test]
fn abstract_heap_types() {
    let codes = [0x6e, 0x71, 0x72, 0x73, 0x6d, 0x6b, 0x6a, 0x6c];
    let data = module(&[section(1, &list(&[func_type(&codes, &[])]))]);
    let config = config(false);
    let features = WasmFeatures { function_references: true, gc: true, ..features() };
    let mut types = ModuleTypesBuilder::new();
    assert!(matches!(
        ModuleEnvironment::try_translate(&config, features, &mut types, &mut Vec::new(), 0, &data),
        Some(Ok(_))
    ));
    let found: Vec<WasmHeapType> = types
        .get(SignatureIndex(0))
        .unwrap()
        .params
        .iter()
        .map(|ty| match ty {
            WasmType::Ref(reference) => reference.heap_type,
            _ => panic!("no reference"),
        })
        .collect();
    assert_eq!(
        found,
        vec![
            WasmHeapType::Any,
            WasmHeapType::NoAny,
            WasmHeapType::NoExtern,
            WasmHeapType::NoFunc,
            WasmHeapType::Eq,
            WasmHeapType::Struct,
            WasmHeapType::Array,
            WasmHeapType::I31,
        ]
    );
}

#[test]
fn constants_of_all_types() {
    let bits32 = 1.5f32.to_bits();
    let bits64 = (-2.25f64).to_bits();
    let v128: u128 = 0x0f0e_0d0c_0b0a_0908_0706_0504_0302_0100;
    let data = module(&[section(
        6,
        &list(&[
            vec![0x7f, 0, 0x41, 0x7f, 0x0b],
            vec![0x7e, 0, 0x42, 0x7e, 0x0b],
            [vec![0x7d, 0, 0x43], bits32.to_le_bytes().to_vec(), vec![0x0b]].concat(),
            [vec![0x7c, 0, 0x44], bits64.to_le_bytes().to_vec(), vec![0x0b]].concat(),
            [vec![0x7b, 0, 0xfd, 0x0c], v128.to_le_bytes().to_vec(), vec![0x0b]].concat(),
        ]),
    )]);
    assert_eq!(
        translate(&data).module.global_initializers.entries.values().copied().collect::<Vec<_>>(),
        vec![
            GlobalInit::I32Const(-1),
            GlobalInit::I64Const(-2),
            GlobalInit::F32Const(bits32),
            GlobalInit::F64Const(bits64),
            GlobalInit::V128Const(v128),
        ]
    );
}

#[test]
fn element_segments_of_all_kinds() {
    let data = module(&[
        types(),
        section(2, &list(&[import("env", "g", &[3, 0x7f, 0])])),
        functions(),
        section(4, &list(&[vec![0x70, 0, 10]])),
        section(
            9,
            &list(&[
                // Active, at the value of a global.
                vec![0, 0x23, 0, 0x0b, 1, 0],
                // Passive, with expressions.
                vec![5, 0x70, 2, 0xd0, 0x70, 0x0b, 0xd2, 1, 0x0b],
                // Declared.
                vec![3, 0, 1, 1],
                // Passive, with functions.
                vec![1, 0, 1, 0],
                // Active, at a negative offset.
                vec![0, 0x41, 0x7f, 0x0b, 0],
            ]),
        ),
        code(),
    ]);
    let m = translate(&data).module;
    let segments = &m.table_initialization.segments;
    assert_eq!(segments.len(), 2);
    assert_eq!((segments[0].base, segments[0].offset), (Some(GlobalIndex(0)), 0));
    assert_eq!(segments[0].elements, vec![FuncIndex(0)]);
    assert_eq!((segments[1].base, segments[1].offset), (None, u32::MAX));
    assert!(segments[1].elements.is_empty());
    assert_eq!(
        m.passive_elements,
        vec![vec![FuncIndex(u32::MAX), FuncIndex(1)], vec![FuncIndex(0)]]
    );
    assert_eq!(m.passive_elements_map.len(), 2);
    assert_eq!(m.passive_elements_map[&1], 0);
    assert_eq!(m.passive_elements_map[&3], 1);
    assert_eq!(m.num_escaped_funcs, 2);
}

#[test]
fn tables_with_expressions() {
    let features = WasmFeatures { function_references: true, ..features() };
    let data = module(&[
        types(),
        functions(),
        section(
            4,
            &list(&[
                vec![0x40, 0, 0x70, 0, 4, 0xd2, 1, 0x0b],
                vec![0x40, 0, 0x70, 0, 4, 0xd0, 0x70, 0x0b],
            ]),
        ),
        section(9, &list(&[vec![3, 0, 1, 1]])),
        code(),
    ]);
    let t = match translate_with(features, &config(false), &data) {
        Some(Ok(t)) => t,
        Some(Err(e)) => panic!("{:?}", e),
        None => panic!("no result"),
    };
    let values = &t.module.table_initialization.initial_values.entries;
    assert!(matches!(values[DefinedTableIndex(0)], TableInitialValue::FuncRef(FuncIndex(1))));
    assert!(matches!(values[DefinedTableIndex(1)], TableInitialValue::Null { .. }));
    assert!(t.module.functions.entries[FuncIndex(1)].is_escaping());
}

#[test]
fn a_table_that_starts_as_a_global_is_not_supported() {
    let features = WasmFeatures { function_references: true, ..features() };
    let data = module(&[
        section(2, &list(&[import("env", "g", &[3, 0x70, 0])])),
        section(4, &list(&[vec![0x40, 0, 0x70, 0, 4, 0x23, 0, 0x0b]])),
    ]);
    match failure(features, &data) {
        WasmError::Unsupported(message) => assert_eq!(
            message,
            "unsupported init expr in table section: GlobalGet { global_index: 0 }"
        ),
        other => panic!("{:?}", other),
    }
}

#[test]
fn an_element_that_is_a_global_is_not_supported() {
    let data = module(&[
        section(2, &list(&[import("env", "g", &[3, 0x70, 0])])),
        section(9, &list(&[vec![5, 0x70, 1, 0x23, 0, 0x0b]])),
    ]);
    match failure(features(), &data) {
        WasmError::Unsupported(message) => assert_eq!(
            message,
            "unsupported init expr in element section: GlobalGet { global_index: 0 }"
        ),
        other => panic!("{:?}", other),
    }
}

#[test]
fn a_component_is_not_supported() {
    let data = vec![0, 0x61, 0x73, 0x6d, 0x0d, 0, 1, 0];
    let allowed = WasmFeatures { component_model: true, ..features() };
    match failure(allowed, &data) {
        WasmError::Unsupported(message) => assert_eq!(message, "component model"),
        other => panic!("{:?}", other),
    }
    assert!(matches!(
        failure(features(), &data),
        WasmError::InvalidWebAssembly { offset: 0, .. }
    ));
}

#[test]
fn an_input_that_is_no_module_is_invalid() {
    match failure(features(), &[0x7f, 0x45, 0x4c, 0x46, 1, 0, 0, 0]) {
        WasmError::InvalidWebAssembly { message, offset } => {
            assert!(message.starts_with("magic header not detected"));
            assert_eq!(offset, 0);
        }
        other => panic!("{:?}", other),
    }
    assert!(matches!(failure(features(), &[]), WasmError::InvalidWebAssembly { .. }));
}

#[test]
fn offsets_in_errors_start_where_the_input_starts() {
    let data = module(&[section(3, &list(&[vec![0]]))]);
    let config = config(false);
    let mut at = Vec::new();
    for start in [0u64, 1000] {
        let mut types = ModuleTypesBuilder::new();
        match ModuleEnvironment::try_translate(&config, features(), &mut types, &mut Vec::new(), start, &data) {
            Some(Err(WasmError::InvalidWebAssembly { message, offset })) => {
                assert!(message.starts_with("unknown type"), "{}", message);
                at.push(offset);
            }
            _ => panic!("no error"),
        }
    }
    assert_eq!(at[0] + 1000, at[1]);
}

#[test]
fn what_the_validator_refuses_is_invalid() {
    let multi = module(&[section(1, &list(&[func_type(&[], &[0x7f, 0x7f])]))]);
    assert!(matches!(translate_with(features(), &config(false), &multi), Some(Ok(_))));
    let without = WasmFeatures { multi_value: false, ..features() };
    assert!(matches!(failure(without, &multi), WasmError::InvalidWebAssembly { .. }));
    let missing_code = module(&[types(), functions()]);
    assert!(matches!(
        failure(features(), &missing_code),
        WasmError::InvalidWebAssembly { .. }
    ));
}

#[test]
fn nothing_after_an_error_matters() {
    let bad = section(3, &list(&[vec![9]]));
    let a = module(&[types(), bad.clone()]);
    let b = module(&[types(), bad, vec![0xff, 0xff, 0xff]]);
    let (a, b) = (failure(features(), &a), failure(features(), &b));
    assert_eq!(format!("{:?}", a), format!("{:?}", b));
}

#[test]
fn what_is_not_translated_yet_has_no_result() {
    let none = |data: &[u8]| translate_with(features(), &config(false), data).is_none();
    assert!(none(&module(&[section(2, &list(&[import("env", "m", &[2, 0, 1])]))])));
    assert!(none(&module(&[section(6, &list(&[vec![0x70, 0, 0xd0, 0x70, 0x0b]]))])));
}

#[test]
fn tags_have_no_result() {
    let allowed = WasmFeatures { exceptions: true, ..features() };
    let defined = module(&[types(), section(13, &list(&[vec![0, 1]]))]);
    assert!(translate_with(allowed, &config(false), &defined).is_none());
    let imported = module(&[types(), section(2, &list(&[import("e", "t", &[4, 0, 1])]))]);
    assert!(translate_with(allowed, &config(false), &imported).is_none());
}

#[test]
fn types_that_are_no_functions_have_no_result() {
    let allowed = WasmFeatures { function_references: true, gc: true, ..features() };
    let array = module(&[section(1, &list(&[vec![0x5e, 0x7f, 0]]))]);
    assert!(translate_with(allowed, &config(false), &array).is_none());
    let open = module(&[section(1, &list(&[[vec![0x50, 0], func_type(&[], &[])].concat()]))]);
    assert!(translate_with(allowed, &config(false), &open).is_none());
}

#[test]
fn an_input_without_a_result_leaves_interned_types_alone() {
    let data = module(&[
        types(),
        section(2, &list(&[import("env", "m", &[2, 0, 1])])),
    ]);
    let config = config(false);
    let mut types = ModuleTypesBuilder::new();
    assert!(ModuleEnvironment::try_translate(&config, features(), &mut types, &mut Vec::new(), 0, &data).is_none());
    assert_eq!(types.len(), 0);
}

#[test]
fn an_input_whose_offsets_cannot_be_told_has_no_result() {
    let data = sample();
    let config = config(false);
    let mut types = ModuleTypesBuilder::new();
    assert!(
        ModuleEnvironment::try_translate(&config, features(), &mut types, &mut Vec::new(), u64::MAX, &data).is_none()
    );
}

#[test]
fn a_count_of_data_segments_changes_nothing() {
    let data = module(&[types(), functions(), section(12, &[0]), code()]);
    let t = translate(&data);
    assert_eq!(t.module.functions.entries.len(), 2);
    assert!(t.data.is_empty());
}

#[test]
fn a_translated_module_is_sound() {
    let data = sample();
    for debug in [false, true] {
        let t = match translate_with(features(), &config(debug), &data) {
            Some(Ok(t)) => t,
            _ => panic!("not translated"),
        };
        let m = &t.module;
        let escapes = |f: FuncIndex| m.functions.entries[f].is_escaping();
        for export in &m.exports {
            if let EntityIndex::Function(f) = export.entity {
                assert!(escapes(f));
                let signature = m.functions.entries[f].signature;
                assert!(t.exported_signatures.contains(&signature));
            }
        }
        assert!(escapes(m.start_func.unwrap()));
        for segment in &m.table_initialization.segments {
            assert!(segment.elements.iter().all(|f| escapes(*f)));
        }
        let mut numbers: Vec<u32> =
            m.functions.entries.values().filter(|f| f.is_escaping()).map(|f| f.func_ref.0).collect();
        numbers.sort_unstable();
        assert_eq!(numbers, (0..m.num_escaped_funcs as u32).collect::<Vec<u32>>());
        assert_eq!(
            m.initializers.len(),
            m.num_imported_funcs + m.num_imported_tables + m.num_imported_globals
        );
        assert_eq!(
            m.table_initialization.initial_values.entries.len() + m.num_imported_tables,
            m.tables.entries.len()
        );
        assert_eq!(m.global_initializers.entries.len() + m.num_imported_globals, m.globals.entries.len());
        let bodies = t.function_body_inputs.entries.len();
        assert_eq!(m.functions.entries.len(), m.num_imported_funcs + bodies);
        assert_eq!(t.debuginfo.wasm_file.funcs.len(), if debug { bodies } else { 0 });
    }
}

#[test]
fn names_change_nothing_else() {
    let with_names = sample();
    let names = with_names.windows(5).rposition(|w| w == b"\x04name").unwrap();
    let without_names = &with_names[..names - 2];
    let (a, b) = (translate(&with_names), translate(without_names));
    assert_eq!(format!("{:?}", a.module.functions), format!("{:?}", b.module.functions));
    assert_eq!(format!("{:?}", a.module.types), format!("{:?}", b.module.types));
    assert_eq!(format!("{:?}", a.module.tables), format!("{:?}", b.module.tables));
    assert_eq!(a.exported_signatures, b.exported_signatures);
    assert!(b.module.name_section.func_names.is_empty());
    assert!(b.module.name_section.module_name.is_none());
}

#[test]
fn data_segments_are_listed_in_order() {
    let data = module(&[
        section(5, &list(&[vec![0, 1]])),
        section(12, &[3]),
        section(
            11,
            &list(&[
                vec![0, 0x41, 0, 0x0b, 2, 0x61, 0x62],
                vec![1, 0],
                vec![1, 1, 0x63],
            ]),
        ),
    ]);
    let t = translate(&data);
    assert_eq!(t.data.len(), 3);
    assert_eq!(t.data[0], b"ab");
    assert!(t.data[1].is_empty());
    assert_eq!(t.data[2], b"c");
    let listed = data.windows(2).position(|w| w == b"ab").unwrap();
    assert_eq!(t.data[0].as_ptr(), data[listed..].as_ptr());
}

#[test]
fn a_broken_name_section_is_a_warning() {
    let parts = section(1, &list(&[vec![1, 9, 0x61]]));
    let data = module(&[types(), functions(), code(), section(0, &named("name", &parts))]);
    let config = config(false);
    let mut types = ModuleTypesBuilder::new();
    let mut warnings = Vec::new();
    assert!(matches!(
        ModuleEnvironment::try_translate(&config, features(), &mut types, &mut warnings, 0, &data),
        Some(Ok(_))
    ));
    assert_eq!(warnings.len(), 1);
    assert!(matches!(
        &warnings[0],
        Warning::NameSection(WasmError::InvalidWebAssembly { .. })
    ));
}

/// What `data` comes to when it starts near the last offset there is.
fn translate_near_the_end<'d>(
    features: WasmFeatures,
    data: &'d [u8],
) -> Option<WasmResult<ModuleTranslation<'d>>> {
    let mut types = ModuleTypesBuilder::new();
    let start = (usize::MAX - 0x1000) as u64;
    ModuleEnvironment::try_translate(
        &config(false),
        features,
        &mut types,
        &mut Vec::new(),
        start,
        data,
    )
}

#[test]
fn a_section_whose_end_cannot_be_told_has_no_result() {
    for id in [8, 12] {
        let data = module(&[vec![id, 0xff, 0xff, 0xff, 0xff, 0x0f]]);
        assert!(translate_near_the_end(features(), &data).is_none());
        assert!(matches!(failure(features(), &data), WasmError::InvalidWebAssembly { .. }));
    }
    let code = module(&[types(), vec![10, 0xff, 0xff, 0xff, 0xff, 0x0f, 0]]);
    assert!(translate_near_the_end(features(), &code).is_none());
    assert!(matches!(failure(features(), &code), WasmError::InvalidWebAssembly { .. }));
}

#[test]
fn only_lengths_have_to_be_told() {
    let number = section(6, &list(&[vec![0x7e, 0, 0x42, 0x80, 0x80, 0x80, 0x80, 0x10, 0x0b]]));
    for data in [module(&[]), sample(), module(&[number.clone()])] {
        assert!(matches!(translate_near_the_end(features(), &data), Some(Ok(_))));
    }
    let data = module(&[number]);
    let t = translate(&data);
    assert_eq!(
        t.module.global_initializers.entries[DefinedGlobalIndex(0)],
        GlobalInit::I64Const(0x1_0000_0000)
    );
}

#[test]
fn lengths_that_are_never_reached_do_not_matter() {
    let unread = vec![10, 0xff, 0xff, 0xff, 0xff, 0x0f, 0];
    let unsupported = section(6, &list(&[vec![0x7f, 0, 0x23, 9, 0x0b]]));
    let too_long = vec![10, 0xff, 0xff, 0xff, 0xff, 0x7f, 0];
    let uncounted = vec![10, 0xff, 0xff, 0xff, 0xff, 0x0f];
    let missing = vec![1, 0xff, 0xff, 0xff, 0xff, 0x0f];
    for data in [
        module(&[unsupported, unread.clone()]),
        module(&[too_long]),
        module(&[uncounted]),
        module(&[missing]),
        module(&[vec![0x80], unread.clone()]),
    ] {
        assert!(matches!(
            translate_near_the_end(features(), &data),
            Some(Err(WasmError::InvalidWebAssembly { .. }))
        ));
    }
    let mut component = vec![0, 0x61, 0x73, 0x6d, 0x0d, 0, 1, 0];
    component.extend(unread);
    let allowed = WasmFeatures { component_model: true, ..features() };
    assert!(matches!(
        translate_near_the_end(allowed, &component),
        Some(Err(WasmError::Unsupported(message))) if message == "component model"
    ));
}

#[test]
fn function_bodies_are_followed_to_the_next_section() {
    let unread = vec![12, 0xff, 0xff, 0xff, 0xff, 0x0f];
    let data = module(&[types(), functions(), code(), unread]);
    assert!(translate_near_the_end(features(), &data).is_none());
    let data = module(&[types(), functions(), code()]);
    assert!(matches!(translate_near_the_end(features(), &data), Some(Ok(_))));
}

#[test]
fn debug_sections_are_noted_of_a_module() {
    let named_section = |name: &str| section(0, &named(name, &[1]));
    for (name, noted) in [(".debug_info", true), (".debug_new", true), ("producers", false)] {
        let data = module(&[named_section(name), types(), named_section("other")]);
        let t = translate(&data);
        assert_eq!(t.has_unparsed_debuginfo, noted);
        match translate_with(features(), &config(true), &data) {
            Some(Ok(t)) => assert!(!t.has_unparsed_debuginfo),
            _ => panic!("not translated"),
        }
    }
}

#[test]
fn only_functions_that_are_referred_to_escape() {
    let data = module(&[
        types(),
        section(3, &list(&[vec![1], vec![1], vec![1], vec![1]])),
        section(7, &list(&[named("f", &[0, 0])])),
        section(8, &[1]),
        section(9, &list(&[vec![3, 0, 1, 2]])),
        section(10, &list(&[sized(&[0, 0x0b]), sized(&[0, 0x0b]), sized(&[0, 0x0b]), sized(&[0, 0x0b])])),
    ]);
    let m = translate(&data).module;
    let escaping: Vec<bool> = m.functions.entries.values().map(|f| f.is_escaping()).collect();
    assert_eq!(escaping, vec![true, true, true, false]);
}

#[test]
fn a_default_translation_is_empty() {
    let t = ModuleTranslation::default();
    assert!(t.module.functions.entries.is_empty());
    assert!(t.data.is_empty());
    assert_eq!(t.debuginfo.wasm_file.code_section_offset, 0);
    let info = WasmFileInfo::default();
    assert!(info.path.is_none() && info.funcs.is_empty());
    assert_eq!(ModuleTypesBuilder::default().len(), 0);
}

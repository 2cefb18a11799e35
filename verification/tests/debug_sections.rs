use gimli::Section;
use miden_frontend::wasm::debuginfo::{DebugInfoData, DebugNote, WasmTranslationConfig};
use miden_frontend::wasm::module_env::ModuleEnvironment;
use miden_frontend::wasm::payload::ModulePayload;
use miden_frontend::wasm::raw::WasmFeatures;
use miden_frontend::wasm::types::ModuleTypesBuilder;
use miden_frontend::wasm::warning::Warning;

fn config(generate_native_debuginfo: bool, parse_wasm_debuginfo: bool) -> WasmTranslationConfig {
    WasmTranslationConfig { generate_native_debuginfo, parse_wasm_debuginfo }
}

fn features() -> WasmFeatures {
    WasmFeatures {
        mutable_global: true,
        saturating_float_to_int: true,
        sign_extension: true,
        reference_types: true,
        multi_value: true,
        bulk_memory: true,
        simd: true,
        relaxed_simd: false,
        threads: false,
        tail_call: false,
        floats: true,
        multi_memory: false,
        exceptions: false,
        memory64: false,
        extended_const: false,
        component_model: false,
        function_references: false,
        memory_control: false,
        gc: false,
        component_model_values: false,
    }
}

fn register<'a>(sections: &[(&'a str, &'a [u8])]) -> DebugInfoData<'a> {
    let mut info = DebugInfoData::new();
    for (name, data) in sections {
        info.register_dwarf_section(&config(false, true), name, data);
    }
    info
}

#[test]
fn sections_are_kept_as_they_are() {
    let info = register(&[
        (".debug_abbrev", &[1]),
        (".debug_addr", &[2, 2]),
        (".debug_info", &[3, 3, 3]),
        (".debug_line", &[4]),
        (".debug_line_str", &[5]),
        (".debug_str", &[6]),
        (".debug_str_offsets", &[7]),
        (".debug_types", &[8]),
    ]);
    let dwarf = &info.dwarf.dwarf;
    assert_eq!(dwarf.debug_abbrev.reader().slice(), [1]);
    assert_eq!(dwarf.debug_addr.reader().slice(), [2, 2]);
    assert_eq!(dwarf.debug_info.reader().slice(), [3, 3, 3]);
    assert_eq!(dwarf.debug_line.reader().slice(), [4]);
    assert_eq!(dwarf.debug_line_str.reader().slice(), [5]);
    assert_eq!(dwarf.debug_str.reader().slice(), [6]);
    assert_eq!(dwarf.debug_str_offsets.reader().slice(), [7]);
    assert_eq!(dwarf.debug_types.reader().slice(), [8]);
    assert!(dwarf.sup().is_none());
}

#[test]
fn strings_of_a_supplementary_file() {
    let info = register(&[(".debug_str", &[1]), (".debug_str_sup", &[9, 8, 7])]);
    let sup = info.dwarf.dwarf.sup().unwrap();
    assert_eq!(sup.debug_str.reader().slice(), [9, 8, 7]);
    assert_eq!(info.dwarf.dwarf.debug_str.reader().slice(), [1]);
}

#[test]
fn range_lists_are_joined_from_their_sections() {
    let info = register(&[(".debug_ranges", &[1, 2]), (".debug_rnglists", &[3])]);
    assert_eq!(info.dwarf.debug_ranges.reader().slice(), [1, 2]);
    assert_eq!(info.dwarf.debug_rnglists.reader().slice(), [3]);
    let lists = &info.dwarf.dwarf.ranges;
    assert_eq!(lists.debug_ranges().reader().slice(), [1, 2]);
    assert_eq!(lists.debug_rnglists().reader().slice(), [3]);
}

#[test]
fn location_lists_are_joined_from_their_sections() {
    let info = register(&[(".debug_loc", &[0x5c, 0x5d]), (".debug_loclists", &[0x77])]);
    let lists = format!("{:?}", info.dwarf.dwarf.locations);
    assert!(lists.contains("0x5c") && lists.contains("0x5d") && lists.contains("0x77"), "{}", lists);
}

#[test]
fn a_section_that_comes_again_replaces_the_first() {
    let info = register(&[(".debug_info", &[1]), (".debug_str", &[5]), (".debug_info", &[2, 2])]);
    assert_eq!(info.dwarf.dwarf.debug_info.reader().slice(), [2, 2]);
    assert_eq!(info.dwarf.dwarf.debug_str.reader().slice(), [5]);
}

#[test]
fn unused_and_unknown_sections_are_skipped() {
    let info = register(&[
        (".debug_aranges", &[1]),
        (".debug_pubnames", &[1]),
        (".debug_pubtypes", &[1]),
        (".debug_something", &[1]),
        ("producers", &[1]),
    ]);
    assert!(info.dwarf.dwarf.debug_info.reader().slice().is_empty());
    assert!(info.dwarf.debug_ranges.reader().slice().is_empty());
}

#[test]
fn debug_sections_are_noted_when_they_are_not_kept() {
    let mut info = DebugInfoData::new();
    assert_eq!(info.register_dwarf_section(&config(false, false), ".debug_info", &[1]), DebugNote::Unparsed);
    assert_eq!(info.register_dwarf_section(&config(false, false), ".debug_pubnames", &[1]), DebugNote::Unparsed);
    assert_eq!(info.register_dwarf_section(&config(false, false), "producers", &[1]), DebugNote::Nothing);
    assert_eq!(info.register_dwarf_section(&config(false, false), "debug_info", &[1]), DebugNote::Nothing);
    assert!(info.dwarf.dwarf.debug_info.reader().slice().is_empty());
    assert_eq!(info.register_dwarf_section(&config(true, false), ".debug_info", &[1]), DebugNote::Nothing);
    assert_eq!(info.dwarf.dwarf.debug_info.reader().slice(), [1]);
}

#[test]
fn a_module_that_carries_debug_sections() {
    let mut data = vec![0, 0x61, 0x73, 0x6d, 1, 0, 0, 0];
    data.extend_from_slice(&[0, 14, 11]);
    data.extend_from_slice(b".debug_info");
    data.extend_from_slice(&[0xab, 0xcd]);
    let mut types = ModuleTypesBuilder::new();
    let kept = config(false, true);
    match ModuleEnvironment::try_translate(&kept, features(), &mut types, &mut Vec::new(), 0, &data) {
        Some(Ok(t)) => {
            assert_eq!(t.debuginfo.dwarf.dwarf.debug_info.reader().slice(), [0xab, 0xcd]);
            assert!(!t.has_unparsed_debuginfo);
        }
        _ => panic!("not translated"),
    }
    let skipped = config(false, false);
    match ModuleEnvironment::try_translate(&skipped, features(), &mut types, &mut Vec::new(), 0, &data) {
        Some(Ok(t)) => {
            assert!(t.debuginfo.dwarf.dwarf.debug_info.reader().slice().is_empty());
            assert!(t.has_unparsed_debuginfo);
        }
        _ => panic!("not translated"),
    }
}

#[test]
fn a_note_of_debug_sections_stays() {
    let config = config(false, false);
    let mut types = ModuleTypesBuilder::new();
    let mut warnings = Vec::new();
    let mut env = ModuleEnvironment::new(&config, features(), &mut types, &mut warnings);
    let debug = ModulePayload::CustomSection { name: ".debug_info", data: &[1] };
    assert!(env.translate_payload(debug).is_ok());
    let other = ModulePayload::CustomSection { name: "producers", data: &[2] };
    assert!(env.translate_payload(other).is_ok());
    assert!(env.result.has_unparsed_debuginfo);
}

#[test]
fn only_unknown_debug_sections_are_a_warning() {
    let config = config(false, true);
    let mut types = ModuleTypesBuilder::new();
    let mut warnings = Vec::new();
    let mut env = ModuleEnvironment::new(&config, features(), &mut types, &mut warnings);
    for name in [".debug_info", ".debug_aranges", ".debug_new", "producers", ".debug_"] {
        let payload = ModulePayload::CustomSection { name, data: &[1] };
        assert!(env.translate_payload(payload).is_ok());
    }
    assert_eq!(warnings.len(), 2);
    assert!(matches!(&warnings[0], Warning::UnknownDebugSection(name) if name == ".debug_new"));
    assert!(matches!(&warnings[1], Warning::UnknownDebugSection(name) if name == ".debug_"));
}

#[test]
fn default_debug_information_is_empty() {
    let info = DebugInfoData::default();
    assert!(info.dwarf.dwarf.debug_info.reader().slice().is_empty());
    assert_eq!(info.wasm_file.imported_func_count, 0);
}

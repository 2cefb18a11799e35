//! What is said of a value is what the value holds.
use vstd::prelude::*;

use super::bodies::{bodies_of, FunctionBodyData};
use super::debuginfo::{dwarf_sections, DwarfSlot, FunctionMetadata, WasmFileInfo};
use super::error::{
    read_view, read_views, ErrorView, Outcome, Read, ReadError, ReadErrorView, Step, WasmError,
};
use super::index::{FuncIndex, FuncRefIndex};
use super::module::{
    texts, views, EntityIndex, Exported, FunctionType, InitialValueView, Initializer, Module,
    NameSection, TableInitialValue, TableSegment,
};
use super::module_env::{EnvView, ModuleEnvironment};
use super::parser::{
    body_view, const_view, const_views, expressions_of, func_view, functions_of, local_names_of,
    names_of, payload_view, payload_views, raw_locals_view, ref_type_view, type_ref_view,
    types_view, val_type_view,
};
use super::payload::{
    declared_views, locals_view, Composite, CompositeView, ConstOperator, DeclaredType,
    ElementEntry, ElementList, ElementListView, ElementPlace, Encoding, ExportEntry, GlobalEntry,
    ImportEntry, ImportKind, LocalNames, ModulePayload, NameEntry, NameSubsection,
    NameSubsectionView, PayloadView, PlaceView, TableEntry,
};
use super::raw::{
    val_type_views, RawComposite, RawElement, RawGlobal, RawGlobalEntry, RawImport, RawItems,
    RawKind, RawLocalNames, RawNames, RawPlace, RawTable, RawTableEntry, RawType, RawVal, RawView,
    ValidView, Validated,
};
use super::translation::{ModuleTranslation, TranslationView};
use super::types::{FuncTypeView, GlobalPlan, MemoryPlan, TablePlan, WasmFuncType, WasmType};
use super::warning::{Warning, WarningView};

verus! {

/// A list of values says what its items say, in their order.
pub proof fn a_list_says_what_its_items_say<T: View>(
    items: Seq<T>,
    entries: Seq<Read<T>>,
    map: Map<u32, String>,
    key: u32,
)
    ensures
        views(items).len() == items.len(),
        forall|i: int| 0 <= i < items.len() ==> #[trigger] views(items)[i] == items[i]@,
        read_views(entries).len() == entries.len(),
        forall|i: int|
            0 <= i < entries.len() ==> #[trigger] read_views(entries)[i] == (match entries[i] {
                Ok(item) => Ok::<T::V, ReadErrorView>(item@),
                Err(error) => Err(error@),
            }),
        forall|i: int|
            0 <= i < entries.len() ==> #[trigger] read_views(entries)[i] == read_view(entries[i]),
        texts(map).contains_key(key) <==> map.contains_key(key),
        map.contains_key(key) ==> texts(map)[key] == map[key]@,
{
}

/// Errors say what they hold.
pub proof fn errors_say_what_they_hold(error: ReadError, text: String, offset: usize)
    ensures
        error@ == (ReadErrorView { message: error.message@, offset: error.offset }),
        (WasmError::InvalidWebAssembly { message: text, offset })@ == (
        ErrorView::InvalidWebAssembly { message: text@, offset }),
        WasmError::Unsupported(text)@ == ErrorView::Unsupported(text@),
        Warning::UnknownDebugSection(text)@ == WarningView::UnknownDebugSection(text@),
        Warning::NameSection(WasmError::Unsupported(text))@ == WarningView::NameSection(
            ErrorView::Unsupported(text@),
        ),
        Warning::NameSection(WasmError::InvalidWebAssembly { message: text, offset })@
            == WarningView::NameSection(
            ErrorView::InvalidWebAssembly { message: text@, offset },
        ),
{
}

/// How a step ended says what it came to, and in which state.
pub proof fn a_step_ends_as_it_came_out<S>(step: Step, next: S, error: ErrorView, state: S)
    ensures
        step.came_to(Outcome::Next(next), state) <==> step is Continue && state == next,
        step.came_to(Outcome::Fails(next, error), state) <==> (step matches Step::Fail(failure)
            && failure@ == error) && state == next,
        step.came_to(Outcome::<S>::Halts, state) <==> step is Halt,
{
}

/// Entries of a payload say what they hold.
pub proof fn entries_say_what_they_hold<'a>(
    declared: DeclaredType,
    ty: WasmFuncType,
    import: ImportEntry<'a>,
    operator: ConstOperator,
    table: TableEntry,
    global: GlobalEntry,
    export: ExportEntry<'a>,
    memory: MemoryPlan,
)
    ensures
        declared@.is_final == declared.is_final,
        declared@.has_supertype == declared.has_supertype,
        declared.composite == Composite::Func(ty) ==> declared@.composite == CompositeView::Func(
            ty@,
        ),
        declared.composite is Array ==> declared@.composite is Array,
        declared.composite is Struct ==> declared@.composite is Struct,
        ty@.params == ty.params@,
        ty@.results == ty.results@,
        import@.module == import.module@,
        import@.name == import.name@,
        import@.ty == import.ty,
        operator@.op == operator.op,
        operator@.text == operator.text@,
        table@.ty == table.ty,
        table.init is None ==> table@.init is None,
        table.init matches Some(init) ==> table@.init == Some(read_view(init)),
        global@.ty == global.ty,
        global@.init == read_view(global.init),
        export@.name == export.name@,
        export@.kind == export.kind,
        export@.index == export.index,
        memory@ == memory,
{
}

/// Element segments say what they hold.
pub proof fn segments_say_what_they_hold(
    entry: ElementEntry,
    table_index: Option<u32>,
    offset: Read<ConstOperator>,
    functions: Vec<Read<u32>>,
    expressions: Vec<Read<ConstOperator>>,
)
    ensures
        entry@.place == entry.place@,
        entry@.items == entry.items@,
        ElementPlace::Passive@ is Passive,
        ElementPlace::Declared@ is Declared,
        (ElementPlace::Active { table_index, offset })@ == (PlaceView::Active {
            table_index,
            offset: read_view(offset),
        }),
        ElementList::Functions(functions)@ == ElementListView::Functions(read_views(functions@)),
        ElementList::Expressions(expressions)@ == ElementListView::Expressions(
            read_views(expressions@),
        ),
{
}

/// Names say what they hold.
pub proof fn names_say_what_they_hold<'a>(
    name: NameEntry<'a>,
    locals: LocalNames<'a>,
    text: &'a str,
    names: Vec<Read<NameEntry<'a>>>,
    functions: Vec<Read<LocalNames<'a>>>,
)
    ensures
        name@.index == name.index,
        name@.name == name.name@,
        locals@.index == locals.index,
        locals@.names == read_views(locals.names@),
        NameSubsection::Module(text)@ == NameSubsectionView::Module(text@),
        NameSubsection::Function(names)@ == NameSubsectionView::Function(read_views(names@)),
        NameSubsection::Local(functions)@ == NameSubsectionView::Local(read_views(functions@)),
        NameSubsection::Global(names)@ == NameSubsectionView::Global(read_views(names@)),
        NameSubsection::Other@ is Other,
{
}

/// Sections say what their entries say.
pub proof fn sections_say_what_they_hold<'a>(
    types: Vec<Option<DeclaredType>>,
    imports: Vec<Read<ImportEntry<'a>>>,
    functions: Vec<Read<u32>>,
    tables: Vec<Read<TableEntry>>,
    memories: Vec<Read<MemoryPlan>>,
    globals: Vec<Read<GlobalEntry>>,
    exports: Vec<Read<ExportEntry<'a>>>,
    elements: Vec<Read<ElementEntry>>,
    segments: Vec<Read<&'a [u8]>>,
    names: Vec<Read<NameSubsection<'a>>>,
)
    ensures
        declared_views(types@).len() == types@.len(),
        forall|i: int|
            0 <= i < types@.len() ==> #[trigger] declared_views(types@)[i] == (match types@[i] {
                Some(ty) => Some(ty@),
                None => None,
            }),
        ModulePayload::TypeSection(types)@ == PayloadView::TypeSection(
            declared_views(types@),
        ),
        ModulePayload::ImportSection(imports)@ == PayloadView::ImportSection(read_views(imports@)),
        ModulePayload::FunctionSection(functions)@ == PayloadView::FunctionSection(
            read_views(functions@),
        ),
        ModulePayload::TableSection(tables)@ == PayloadView::TableSection(
            read_views(tables@),
        ),
        ModulePayload::MemorySection(memories)@ == PayloadView::MemorySection(
            read_views(memories@),
        ),
        ModulePayload::GlobalSection(globals)@ == PayloadView::GlobalSection(
            read_views(globals@),
        ),
        ModulePayload::ExportSection(exports)@ == PayloadView::ExportSection(read_views(exports@)),
        ModulePayload::ElementSection(elements)@ == PayloadView::ElementSection(
            read_views(elements@),
        ),
        ModulePayload::DataSection(segments)@ == PayloadView::DataSection(read_views(segments@)),
        ModulePayload::NameSection(names)@ == PayloadView::NameSection(read_views(names@)),
{
}

/// Other payloads say what they hold.
pub proof fn payloads_say_what_they_hold<'a>(
    encoding: Encoding,
    types: wasmparser::types::Types,
    func: u32,
    start: usize,
    body: wasmparser::FunctionBody<'a>,
    validator: wasmparser::FuncToValidate<wasmparser::ValidatorResources>,
    locals: Read<Vec<Read<(u32, WasmType)>>>,
    name: &'a str,
    data: &'a [u8],
)
    ensures
        (ModulePayload::Version { encoding })@ == (PayloadView::Version { encoding }),
        (ModulePayload::End { types })@ == (PayloadView::End { types: types_view(types) }),
        ModulePayload::TagSection@ is TagSection,
        (ModulePayload::StartSection { func })@ == (PayloadView::StartSection { func }),
        (ModulePayload::CodeSectionStart { start })@ == (PayloadView::CodeSectionStart {
            start,
        }),
        (ModulePayload::CodeSectionEntry { body, validator, locals })@ == (
        PayloadView::CodeSectionEntry {
            body: body_view(body),
            validator: func_view(validator),
            locals: locals_view(locals),
        }),
        ModulePayload::DataCountSection@ is DataCountSection,
        (ModulePayload::CustomSection { name, data })@ == (PayloadView::CustomSection {
            name: name@,
            data: data@,
        }),
        ModulePayload::Other@ is Other,
        locals matches Err(error) ==> (locals_view(locals) matches Err(found) && found == error@),
        locals matches Ok(pairs) ==> {
            &&& locals_view(locals) matches Ok(found)
            &&& found.len() == pairs@.len()
            &&& forall|i: int|
                0 <= i < pairs@.len() ==> #[trigger] found[i] == (match pairs@[i] {
                    Ok(pair) => Ok::<(u32, WasmType), ReadErrorView>(pair),
                    Err(error) => Err(error@),
                })
        },
{
}

/// What the parser and the validator hand out says what it holds.
pub proof fn parts_say_what_they_hold<'a>(
    func: wasmparser::FuncToValidate<wasmparser::ValidatorResources>,
    types: wasmparser::types::Types,
    plain: WasmType,
    reference: wasmparser::RefType,
    ty: RawType,
    params: Vec<wasmparser::ValType>,
    results: Vec<wasmparser::ValType>,
    table: RawTable,
    global: RawGlobal,
    memory: MemoryPlan,
    number: u32,
    import: RawImport<'a>,
)
    ensures
        Validated::Done@ is Done,
        Validated::Func(func)@ == ValidView::Func(func_view(func)),
        Validated::End(types)@ == ValidView::End(types_view(types)),
        RawVal::Plain(plain)@ == plain,
        RawVal::Reference(reference)@ == WasmType::Ref(ref_type_view(reference)),
        ty@.is_final == ty.is_final,
        ty@.has_supertype == ty.has_supertype,
        ty.composite == (RawComposite::Func { params, results }) ==> {
            &&& ty@.composite matches CompositeView::Func(signature)
            &&& signature.params.len() == params@.len()
            &&& signature.results.len() == results@.len()
            &&& forall|i: int|
                0 <= i < params@.len() ==> #[trigger] signature.params[i] == val_type_view(
                    params@[i],
                )
            &&& forall|i: int|
                0 <= i < results@.len() ==> #[trigger] signature.results[i] == val_type_view(
                    results@[i],
                )
        },
        ty.composite is Array ==> ty@.composite is Array,
        ty.composite is Struct ==> ty@.composite is Struct,
        table@ == (TablePlan {
            element: ref_type_view(table.element),
            minimum: table.minimum,
            maximum: table.maximum,
        }),
        global@ == (GlobalPlan { ty: val_type_view(global.content), mutable: global.mutable }),
        RawKind::Func(number)@ == ImportKind::Func(number),
        RawKind::Table(table)@ == ImportKind::Table(table@),
        RawKind::Memory(memory)@ == ImportKind::Memory(memory),
        RawKind::Global(global)@ == ImportKind::Global(global@),
        RawKind::Tag(number)@ == ImportKind::Tag(number),
        import@.module == import.module@,
        import@.name == import.name@,
        import@.ty == type_ref_view(import.ty),
{
}

/// Entries that the parser hands out say what they hold.
pub proof fn raw_entries_say_what_they_hold<'a>(
    table: RawTableEntry<'a>,
    global: RawGlobalEntry<'a>,
    element: RawElement<'a>,
    table_index: Option<u32>,
    offset: wasmparser::ConstExpr<'a>,
    functions: wasmparser::SectionLimited<'a, u32>,
    expressions: wasmparser::SectionLimited<'a, wasmparser::ConstExpr<'a>>,
    text: &'a str,
    names: wasmparser::SectionLimited<'a, wasmparser::Naming<'a>>,
    indirect: wasmparser::SectionLimited<'a, wasmparser::IndirectNaming<'a>>,
    locals: RawLocalNames<'a>,
)
    ensures
        table@.ty == table.ty@,
        table.init is None ==> table@.init is None,
        table.init matches Some(init) ==> table@.init == Some(const_view(init)),
        global@.ty == global.ty@,
        global@.init == const_view(global.init),
        element.place is Passive ==> element@.place is Passive,
        element.place is Declared ==> element@.place is Declared,
        element.place == (RawPlace::Active { table_index, offset }) ==> element@.place == (
        PlaceView::Active { table_index, offset: const_view(offset) }),
        element.items == RawItems::Functions(functions) ==> element@.items
            == ElementListView::Functions(functions_of(functions)),
        element.items == RawItems::Expressions(expressions) ==> element@.items
            == ElementListView::Expressions(expressions_of(expressions)),
        RawNames::Module(text)@ == NameSubsectionView::Module(text@),
        RawNames::Function(names)@ == NameSubsectionView::Function(names_of(names)),
        RawNames::Local(indirect)@ == NameSubsectionView::Local(local_names_of(indirect)),
        RawNames::Global(names)@ == NameSubsectionView::Global(names_of(names)),
        RawNames::Other@ is Other,
        locals@.index == locals.index,
        locals@.names == names_of(locals.names),
{
}

/// Lists that the parser hands out say what their items say, in their order.
pub proof fn raw_lists_say_what_their_items_say<'a>(
    types: Seq<wasmparser::ValType>,
    expressions: Seq<Read<wasmparser::ConstExpr<'a>>>,
    found: Seq<Read<wasmparser::Payload<'a>>>,
    locals: Vec<Read<(u32, wasmparser::ValType)>>,
    error: ReadError,
)
    ensures
        val_type_views(types).len() == types.len(),
        forall|i: int|
            0 <= i < types.len() ==> #[trigger] val_type_views(types)[i] == val_type_view(types[i]),
        const_views(expressions).len() == expressions.len(),
        forall|i: int|
            0 <= i < expressions.len() ==> #[trigger] const_views(expressions)[i] == (
            match expressions[i] {
                Ok(expression) => const_view(expression),
                Err(error) => Err(error@),
            }),
        payload_views(found).len() == found.len(),
        forall|i: int|
            0 <= i < found.len() ==> #[trigger] payload_views(found)[i] == (match found[i] {
                Ok(payload) => Ok::<RawView, ReadErrorView>(payload_view(payload)),
                Err(error) => Err(error@),
            }),
        raw_locals_view(Err(error)) matches Err(found) && found == error@,
        raw_locals_view(Ok(locals)) matches Ok(pairs) && pairs.len() == locals@.len() && forall|
            i: int,
        |
            0 <= i < pairs.len() ==> #[trigger] pairs[i] == (match locals@[i] {
                Ok(pair) => Ok::<_, ReadErrorView>((pair.0, val_type_view(pair.1))),
                Err(error) => Err(error@),
            }),
{
}

/// What a module is made of says what it holds.
pub proof fn entities_say_what_they_hold<'a>(
    name: String,
    field: String,
    index: EntityIndex,
    exported: Exported,
    precomputed: Vec<FuncIndex>,
    func: FuncIndex,
    segment: TableSegment,
    names: NameSection,
    function: FunctionType,
    body: FunctionBodyData<'a>,
    metadata: FunctionMetadata,
    file: WasmFileInfo,
    key: u32,
)
    ensures
        (Initializer::Import { name, field, index })@.name == name@,
        (Initializer::Import { name, field, index })@.field == field@,
        (Initializer::Import { name, field, index })@.index == index,
        exported@.0 == exported.name@,
        exported@.1 == exported.entity,
        (TableInitialValue::Null { precomputed })@ == (InitialValueView::Null {
            precomputed: precomputed@,
        }),
        TableInitialValue::FuncRef(func)@ == InitialValueView::FuncRef(func),
        segment@.table_index == segment.table_index,
        segment@.base == segment.base,
        segment@.offset == segment.offset,
        segment@.elements == segment.elements@,
        names.module_name is None ==> names@.module_name is None,
        names.module_name matches Some(name) ==> names@.module_name == Some(name@),
        names@.func_names == texts(names.func_names@),
        names@.globals_names == texts(names.globals_names@),
        names@.locals_names.contains_key(key) <==> names.locals_names@.contains_key(key),
        names.locals_names@.contains_key(key) ==> names@.locals_names[key] == texts(
            names.locals_names@[key]@,
        ),
        function.escapes() <==> function.func_ref.0 != u32::MAX,
        FuncIndex::reserved() == FuncIndex(u32::MAX),
        FuncRefIndex::reserved() == FuncRefIndex(u32::MAX),
        body@.body == body_view(body.body),
        body@.validator == func_view(body.validator),
        metadata@.params == metadata.params@,
        metadata@.locals == metadata.locals@,
        file@.path == file.path,
        file@.code_section_offset == file.code_section_offset,
        file@.imported_func_count == file.imported_func_count,
        file@.funcs == views(file.funcs@),
{
}

/// A module says what it holds.
pub proof fn a_module_says_what_it_holds(module: Module)
    ensures
        module@.initializers == views(module.initializers@),
        module@.exports == views(module.exports@),
        module@.start_func == module.start_func,
        module@.initial_values == module.table_initialization.initial_values@,
        module@.segments == views(module.table_initialization.segments@),
        module@.passive_elements == views(module.passive_elements@),
        module@.passive_elements_map == module.passive_elements_map@,
        module@.types == module.types@,
        module@.num_imported_funcs == module.num_imported_funcs,
        module@.num_imported_tables == module.num_imported_tables,
        module@.num_imported_memories == module.num_imported_memories,
        module@.num_imported_globals == module.num_imported_globals,
        module@.num_escaped_funcs == module.num_escaped_funcs,
        module@.functions == module.functions@,
        module@.tables == module.tables@,
        module@.globals == module.globals@,
        module@.global_initializers == module.global_initializers@,
        module@.names == module.name_section@,
{
}

/// A translation says what it holds, and so does an environment.
pub proof fn a_translation_says_what_it_holds<'a, 'data>(
    t: ModuleTranslation<'data>,
    env: ModuleEnvironment<'a, 'data>,
)
    ensures
        t@.module == t.module@,
        t@.bodies == bodies_of(t.function_body_inputs),
        t@.exported_signatures == t.exported_signatures@,
        t@.debug.sections == dwarf_sections(t.debuginfo.dwarf),
        t@.debug.has_unparsed == t.has_unparsed_debuginfo,
        t@.wasm_file == t.debuginfo.wasm_file@,
        t@.data == views(t.data@),
        env@.result == env.result@,
        env@.signatures == old(env.types)@,
        env@.warnings == views(old(env.warnings)@),
{
}

/// Where nothing is translated yet, there is nothing.
pub proof fn a_new_translation_holds_nothing(
    signatures: Seq<FuncTypeView>,
    warnings: Seq<WarningView>,
    slot: DwarfSlot,
)
    ensures
        EnvView::fresh(signatures, warnings).result == TranslationView::empty(),
        EnvView::fresh(signatures, warnings).signatures == signatures,
        EnvView::fresh(signatures, warnings).warnings == warnings,
        TranslationView::empty().debug.sections.contains_key(slot) <==> slot != DwarfSlot::StrSup,
        slot != DwarfSlot::StrSup ==> TranslationView::empty().debug.sections[slot].len() == 0,
        ({
            let t = TranslationView::empty();
            &&& t.bodies.len() == 0 && t.exported_signatures.len() == 0 && t.data.len() == 0
            &&& t.code_index == 0 && t.types is None && !t.debug.has_unparsed
            &&& t.wasm_file.path is None && t.wasm_file.funcs.len() == 0
            &&& t.wasm_file.code_section_offset == 0 && t.wasm_file.imported_func_count == 0
            &&& t.module.initializers.len() == 0 && t.module.exports.len() == 0
            &&& t.module.start_func is None && t.module.initial_values.len() == 0
            &&& t.module.segments.len() == 0 && t.module.passive_elements.len() == 0
            &&& t.module.passive_elements_map == Map::<u32, usize>::empty()
            &&& t.module.types.len() == 0 && t.module.functions.len() == 0
            &&& t.module.tables.len() == 0 && t.module.globals.len() == 0
            &&& t.module.global_initializers.len() == 0 && t.module.num_imported_funcs == 0
            &&& t.module.num_imported_tables == 0 && t.module.num_imported_memories == 0
            &&& t.module.num_imported_globals == 0 && t.module.num_escaped_funcs == 0
            &&& t.module.names.module_name is None
            &&& t.module.names.func_names == Map::<u32, Seq<char>>::empty()
            &&& t.module.names.locals_names == Map::<u32, Map<u32, Seq<char>>>::empty()
            &&& t.module.names.globals_names == Map::<u32, Seq<char>>::empty()
        }),
{
}

} // verus!

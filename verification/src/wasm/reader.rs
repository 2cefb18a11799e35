//! From a payload as the parser hands it out to the payload in plain values.
use vstd::prelude::*;

use super::error::{read_view, read_views, Read, ReadError};
use super::parser::{
    body_locals, const_operator, const_views, core_type_at, core_type_count, custom_part,
    data_segments, declared_types, elements, exports, expression_items, function_items, functions,
    globals, has_type_section, imports, local_name_items, locals_of, memories, name_items,
    name_parts, name_subsections, part, payload_view, ref_type, tables, type_ref_parts,
    val_type_parts, val_type_view, validator_view, version,
};
use super::payload::{
    declared_views, locals_view, Composite, ConstOperator, DeclaredType, DeclaredTypeView,
    ElementEntry, ElementList, ElementPlace, GlobalEntry, ImportEntry, ImportKind, LocalNames,
    ModulePayload, NameSubsection, PayloadView, TableEntry,
};
use super::raw::{
    val_type_views, ContentView, Part, RawComposite, RawElement, RawGlobal, RawGlobalEntry,
    RawImport, RawItems, RawKind, RawLocalNames, RawNames, RawPlace, RawTable, RawTableEntry,
    RawType, RawVal, ValidView, Validated,
};
use super::text::same_text;
use super::types::{GlobalPlan, TablePlan, WasmFuncType, WasmType};

verus! {

/// What a type section with `count` entries declares.
pub open spec fn declarations(count: u32, declared: Seq<DeclaredTypeView>) -> Seq<
    Option<DeclaredTypeView>,
> {
    Seq::new(
        count as nat,
        |i: int|
            if i < declared.len() {
                Some(declared[i])
            } else {
                None
            },
    )
}

/// The payload with the contents `content`, for which the validator hands out
/// `valid`, when the types in `declared` are declared.
pub open spec fn complete(
    content: ContentView,
    valid: ValidView,
    declared: Seq<DeclaredTypeView>,
) -> PayloadView {
    match content {
        ContentView::Version { encoding } => PayloadView::Version { encoding },
        ContentView::End => match valid {
            ValidView::End(types) => PayloadView::End { types },
            _ => PayloadView::Other,
        },
        ContentView::TypeSection { count } => PayloadView::TypeSection(
            declarations(count, declared),
        ),
        ContentView::ImportSection(entries) => PayloadView::ImportSection(entries),
        ContentView::FunctionSection(entries) => PayloadView::FunctionSection(entries),
        ContentView::TableSection(entries) => PayloadView::TableSection(entries),
        ContentView::MemorySection(entries) => PayloadView::MemorySection(entries),
        ContentView::TagSection => PayloadView::TagSection,
        ContentView::GlobalSection(entries) => PayloadView::GlobalSection(entries),
        ContentView::ExportSection(entries) => PayloadView::ExportSection(entries),
        ContentView::StartSection { func } => PayloadView::StartSection { func },
        ContentView::ElementSection(entries) => PayloadView::ElementSection(entries),
        ContentView::CodeSectionStart { start, count } => PayloadView::CodeSectionStart { start },
        ContentView::CodeSectionEntry { body, locals } => match valid {
            ValidView::Func(validator) => PayloadView::CodeSectionEntry { body, validator, locals },
            _ => PayloadView::Other,
        },
        ContentView::DataSection(entries) => PayloadView::DataSection(entries),
        ContentView::DataCountSection => PayloadView::DataCountSection,
        ContentView::CustomSection { name, data, offset } => custom_payload(name, data, offset),
        ContentView::Other => PayloadView::Other,
    }
}

/// The payload that a custom section is. One has the names; its bytes must end
/// at an offset that can be told.
pub open spec fn custom_payload(name: Seq<char>, data: Seq<u8>, offset: usize) -> PayloadView {
    if name != "name"@ {
        PayloadView::CustomSection { name, data }
    } else if offset + data.len() <= usize::MAX {
        PayloadView::NameSection(name_subsections(data, offset))
    } else {
        PayloadView::Other
    }
}

/// The type that a `ValType` is.
fn val_type(ty: wasmparser::ValType) -> (plain: WasmType)
    ensures
        plain == val_type_view(ty),
{
    match val_type_parts(ty) {
        RawVal::Plain(plain) => plain,
        RawVal::Reference(reference) => WasmType::Ref(ref_type(reference)),
    }
}

/// The types that some `ValType`s are.
fn val_types(types: Vec<wasmparser::ValType>) -> (plain: Vec<WasmType>)
    ensures
        plain@ == val_type_views(types@),
{
    let ghost all = types@;
    let mut plain: Vec<WasmType> = Vec::new();
    for ty in iter: types
        invariant
            iter.seq() == all,
            plain@ == val_type_views(all.take(iter.index() as int)),
    {
        plain.push(val_type(ty));
        assert(val_type_views(all.take(iter.index() + 1)) =~= val_type_views(
            all.take(iter.index() as int),
        ).push(val_type_view(ty)));
    }
    assert(all.take(all.len() as int) =~= all);
    plain
}

/// The entries of a section, each converted by `convert`, which keeps what the
/// entry says.
fn convert_entries<A: View, B: View<V = A::V>, F: Fn(A) -> B>(
    entries: Vec<Read<A>>,
    convert: F,
) -> (converted: Vec<Read<B>>)
    requires
        forall|entry: A| #[trigger] call_requires(convert, (entry,)),
        forall|entry: A, after: B| #[trigger]
            call_ensures(convert, (entry,), after) ==> after@ == entry@,
    ensures
        read_views(converted@) == read_views(entries@),
{
    let ghost all = entries@;
    let mut converted: Vec<Read<B>> = Vec::new();
    for entry in iter: entries
        invariant
            iter.seq() == all,
            forall|entry: A| #[trigger] call_requires(convert, (entry,)),
            forall|entry: A, after: B| #[trigger]
                call_ensures(convert, (entry,), after) ==> after@ == entry@,
            converted@.len() == iter.index(),
            forall|i: int|
                0 <= i < iter.index() ==> read_view(#[trigger] converted@[i]) == read_view(all[i]),
    {
        let after = match entry {
            Ok(entry) => Ok(convert(entry)),
            Err(error) => Err(error),
        };
        converted.push(after);
    }
    assert(read_views(converted@) =~= read_views(all));
    converted
}

/// The type of a table.
fn table_plan(table: RawTable) -> (plan: TablePlan)
    ensures
        plan == table@,
{
    TablePlan {
        element: ref_type(table.element),
        minimum: table.minimum,
        maximum: table.maximum,
    }
}

/// The type of a global.
fn global_plan(global: RawGlobal) -> (plan: GlobalPlan)
    ensures
        plan == global@,
{
    GlobalPlan { ty: val_type(global.content), mutable: global.mutable }
}

/// An entry of the import section.
fn import_entry<'a>(import: RawImport<'a>) -> (entry: ImportEntry<'a>)
    ensures
        entry@ == import@,
{
    ImportEntry {
        module: import.module,
        name: import.name,
        ty: match type_ref_parts(import.ty) {
            RawKind::Func(ty) => ImportKind::Func(ty),
            RawKind::Table(table) => ImportKind::Table(table_plan(table)),
            RawKind::Memory(memory) => ImportKind::Memory(memory),
            RawKind::Global(global) => ImportKind::Global(global_plan(global)),
            RawKind::Tag(ty) => ImportKind::Tag(ty),
        },
    }
}

/// An entry of the table section.
fn table_entry<'a>(table: RawTableEntry<'a>) -> (entry: TableEntry)
    ensures
        entry@ == table@,
{
    TableEntry {
        ty: table_plan(table.ty),
        init: match table.init {
            Some(init) => Some(const_operator(&init)),
            None => None,
        },
    }
}

/// An entry of the global section.
fn global_entry<'a>(global: RawGlobalEntry<'a>) -> (entry: GlobalEntry)
    ensures
        entry@ == global@,
{
    GlobalEntry { ty: global_plan(global.ty), init: const_operator(&global.init) }
}

/// The operators that some constant expressions start with.
fn const_operators<'a>(expressions: Vec<Read<wasmparser::ConstExpr<'a>>>) -> (operators: Vec<
    Read<ConstOperator>,
>)
    ensures
        read_views(operators@) == const_views(expressions@),
{
    let ghost all = expressions@;
    let mut operators: Vec<Read<ConstOperator>> = Vec::new();
    for expression in iter: expressions
        invariant
            iter.seq() == all,
            operators@.len() == iter.index(),
            forall|i: int|
                0 <= i < iter.index() ==> read_view(#[trigger] operators@[i])
                    == const_views(all)[i],
    {
        let operator = match expression {
            Ok(expression) => const_operator(&expression),
            Err(error) => Err(error),
        };
        operators.push(operator);
    }
    assert(read_views(operators@) =~= const_views(all));
    operators
}

/// An entry of the element section.
fn element_entry<'a>(element: RawElement<'a>) -> (entry: ElementEntry)
    ensures
        entry@ == element@,
{
    ElementEntry {
        place: match element.place {
            RawPlace::Passive => ElementPlace::Passive,
            RawPlace::Active { table_index, offset } => ElementPlace::Active {
                table_index,
                offset: const_operator(&offset),
            },
            RawPlace::Declared => ElementPlace::Declared,
        },
        items: match element.items {
            RawItems::Functions(functions) => ElementList::Functions(function_items(&functions)),
            RawItems::Expressions(expressions) => ElementList::Expressions(
                const_operators(expression_items(&expressions)),
            ),
        },
    }
}

/// The names of the locals of a function.
fn local_names<'a>(locals: RawLocalNames<'a>) -> (entry: LocalNames<'a>)
    ensures
        entry@ == locals@,
{
    LocalNames { index: locals.index, names: name_items(&locals.names) }
}

/// A part of the name section.
fn name_subsection<'a>(names: RawNames<'a>) -> (subsection: NameSubsection<'a>)
    ensures
        subsection@ == names@,
{
    match names {
        RawNames::Module(name) => NameSubsection::Module(name),
        RawNames::Function(names) => NameSubsection::Function(name_items(&names)),
        RawNames::Local(names) => NameSubsection::Local(
            convert_entries(local_name_items(&names), local_names),
        ),
        RawNames::Global(names) => NameSubsection::Global(name_items(&names)),
        RawNames::Other => NameSubsection::Other,
    }
}

/// The locals that a function body declares.
fn locals<'a>(body: &wasmparser::FunctionBody<'a>) -> (locals: Read<Vec<Read<(u32, WasmType)>>>)
    ensures
        locals_view(locals) == locals_of(*body),
{
    let pairs = match body_locals(body) {
        Ok(pairs) => pairs,
        Err(error) => return Err(error),
    };
    let ghost all = pairs@;
    let mut locals: Vec<Read<(u32, WasmType)>> = Vec::new();
    for pair in iter: pairs
        invariant
            iter.seq() == all,
            locals@.len() == iter.index(),
            forall|i: int|
                0 <= i < iter.index() ==> (#[trigger] locals@[i] matches Ok(local) ==> all[i]
                    matches Ok(pair) && local == (pair.0, val_type_view(pair.1))),
            forall|i: int|
                0 <= i < iter.index() ==> (#[trigger] locals@[i] matches Err(error) ==> all[i]
                    == Err::<(u32, wasmparser::ValType), ReadError>(error)),
    {
        let local = match pair {
            Ok((count, ty)) => Ok((count, val_type(ty))),
            Err(error) => Err(error),
        };
        locals.push(local);
    }
    let locals: Read<Vec<Read<(u32, WasmType)>>> = Ok(locals);
    assert(locals_view(locals)->Ok_0 =~= locals_of(*body)->Ok_0);
    locals
}

/// A type that a module declares.
fn declared_type(ty: RawType) -> (declared: DeclaredType)
    ensures
        declared@ == ty@,
{
    DeclaredType {
        is_final: ty.is_final,
        has_supertype: ty.has_supertype,
        composite: match ty.composite {
            RawComposite::Func { params, results } => Composite::Func(
                WasmFuncType { params: val_types(params), results: val_types(results) },
            ),
            RawComposite::Array => Composite::Array,
            RawComposite::Struct => Composite::Struct,
        },
    }
}

/// What a type section with `count` entries declares.
fn type_section(validator: &wasmparser::Validator, count: u32) -> (types: Vec<
    Option<DeclaredType>,
>)
    requires
        has_type_section(validator_view(*validator)),
    ensures
        declared_views(types@) == declarations(count, declared_types(validator_view(*validator))),
{
    let ghost declared = declared_types(validator_view(*validator));
    let known: u32 = core_type_count(validator);
    let mut types: Vec<Option<DeclaredType>> = Vec::new();
    let mut i: u32 = 0;
    while i < count
        invariant
            i <= count,
            has_type_section(validator_view(*validator)),
            declared == declared_types(validator_view(*validator)),
            known == declared.len(),
            types@.len() == i,
            forall|k: int|
                0 <= k < i ==> #[trigger] declared_views(types@)[k] == declarations(
                    count,
                    declared,
                )[k],
        decreases count - i,
    {
        let ghost before = declared_views(types@);
        let ty = if i < known {
            Some(declared_type(core_type_at(validator, i)))
        } else {
            None
        };
        types.push(ty);
        assert forall|k: int| 0 <= k < i + 1 implies #[trigger] declared_views(types@)[k]
            == declarations(count, declared)[k] by {
            if k < i {
                assert(declared_views(types@)[k] == before[k]);
            }
        }
        i = i + 1;
    }
    assert(declared_views(types@) =~= declarations(count, declared));
    types
}

/// A custom section, as a payload.
pub(crate) fn read_custom_section<'a>(name: &'a str, data: &'a [u8], offset: usize) -> (payload:
    ModulePayload<'a>)
    ensures
        payload@ == custom_payload(name@, data@, offset),
{
    if !same_text(name, "name") {
        ModulePayload::CustomSection { name, data }
    } else if offset <= usize::MAX - data.len() {
        ModulePayload::NameSection(
            convert_entries(name_parts(data, offset), name_subsection),
        )
    } else {
        ModulePayload::Other
    }
}

/// The payload that consists of a few values, if it is one.
fn read_part<'a>(
    validator: &wasmparser::Validator,
    payload: &wasmparser::Payload<'a>,
    valid: Validated,
) -> (read: ModulePayload<'a>)
    requires
        payload_view(*payload).content is TypeSection ==> has_type_section(
            validator_view(*validator),
        ),
        !(payload_view(*payload).content is Version),
        !(payload_view(*payload).content is CustomSection),
        !(payload_view(*payload).content is ImportSection),
        !(payload_view(*payload).content is FunctionSection),
        !(payload_view(*payload).content is TableSection),
        !(payload_view(*payload).content is MemorySection),
        !(payload_view(*payload).content is GlobalSection),
        !(payload_view(*payload).content is ExportSection),
        !(payload_view(*payload).content is ElementSection),
        !(payload_view(*payload).content is DataSection),
    ensures
        read@ == complete(
            payload_view(*payload).content,
            valid@,
            declared_types(validator_view(*validator)),
        ),
{
    match part(payload) {
        Part::End => match valid {
            Validated::End(types) => ModulePayload::End { types },
            _ => ModulePayload::Other,
        },
        Part::TypeSection { count } => ModulePayload::TypeSection(type_section(validator, count)),
        Part::TagSection => ModulePayload::TagSection,
        Part::StartSection { func } => ModulePayload::StartSection { func },
        Part::CodeSectionStart { start } => ModulePayload::CodeSectionStart { start },
        Part::CodeSectionEntry { body } => match valid {
            Validated::Func(validator) => {
                let locals = locals(&body);
                ModulePayload::CodeSectionEntry { body, validator, locals }
            },
            _ => ModulePayload::Other,
        },
        Part::DataCountSection => ModulePayload::DataCountSection,
        Part::Other => ModulePayload::Other,
    }
}

/// The payload in plain values. The validator has accepted it and has handed
/// out `valid` for it.
pub(crate) fn read_payload<'a>(
    validator: &wasmparser::Validator,
    payload: &wasmparser::Payload<'a>,
    valid: Validated,
) -> (read: ModulePayload<'a>)
    requires
        payload_view(*payload).content is TypeSection ==> has_type_section(
            validator_view(*validator),
        ),
    ensures
        read@ == complete(
            payload_view(*payload).content,
            valid@,
            declared_types(validator_view(*validator)),
        ),
{
    if let Some(custom) = custom_part(payload) {
        return read_custom_section(custom.name, custom.data, custom.offset);
    }
    if let Some(encoding) = version(payload) {
        return ModulePayload::Version { encoding };
    }
    if let Some(entries) = imports(payload) {
        return ModulePayload::ImportSection(convert_entries(entries, import_entry));
    }
    if let Some(entries) = functions(payload) {
        return ModulePayload::FunctionSection(entries);
    }
    if let Some(entries) = tables(payload) {
        return ModulePayload::TableSection(convert_entries(entries, table_entry));
    }
    if let Some(entries) = memories(payload) {
        return ModulePayload::MemorySection(entries);
    }
    if let Some(entries) = globals(payload) {
        return ModulePayload::GlobalSection(convert_entries(entries, global_entry));
    }
    if let Some(entries) = exports(payload) {
        return ModulePayload::ExportSection(entries);
    }
    if let Some(entries) = elements(payload) {
        return ModulePayload::ElementSection(convert_entries(entries, element_entry));
    }
    if let Some(entries) = data_segments(payload) {
        return ModulePayload::DataSection(entries);
    }
    read_part(validator, payload, valid)
}

} // verus!

//! The payloads of a module as the translation takes them: each section as
//! the entries that were read from it, in plain values.
use vstd::prelude::*;

use super::error::{read_view, read_views, Read, ReadErrorView};
use super::parser::{body_view, func_view, types_view};
use super::types::{FuncTypeView, GlobalPlan, MemoryPlan, TablePlan, WasmFuncType, WasmType};

verus! {

/// What the header of the input announces.
#[derive(Clone, Copy, Debug, PartialEq, Eq, Structural)]
pub enum Encoding {
    Module,
    Component,
}

/// A type that a module declares.
#[derive(Debug)]
pub struct DeclaredType {
    /// Whether no other type may extend it.
    pub is_final: bool,
    /// Whether it extends another type.
    pub has_supertype: bool,
    /// What it consists of.
    pub composite: Composite,
}

/// What a declared type consists of.
#[derive(Debug)]
pub enum Composite {
    Func(WasmFuncType),
    Array,
    Struct,
}

/// What a [`DeclaredType`] says.
pub struct DeclaredTypeView {
    pub is_final: bool,
    pub has_supertype: bool,
    pub composite: CompositeView,
}

/// What a [`Composite`] says.
pub enum CompositeView {
    Func(FuncTypeView),
    Array,
    Struct,
}

impl View for Composite {
    type V = CompositeView;

    open spec fn view(&self) -> CompositeView {
        match self {
            Composite::Func(ty) => CompositeView::Func(ty@),
            Composite::Array => CompositeView::Array,
            Composite::Struct => CompositeView::Struct,
        }
    }
}

impl View for DeclaredType {
    type V = DeclaredTypeView;

    open spec fn view(&self) -> DeclaredTypeView {
        DeclaredTypeView {
            is_final: self.is_final,
            has_supertype: self.has_supertype,
            composite: self.composite@,
        }
    }
}

/// An entry of the import section.
#[derive(Clone, Copy, Debug)]
pub struct ImportEntry<'data> {
    /// The module to import from.
    pub module: &'data str,
    /// The name to import.
    pub name: &'data str,
    /// What is imported.
    pub ty: ImportKind,
}

/// What an import is.
#[derive(Clone, Copy, Debug, PartialEq, Eq, Structural)]
pub enum ImportKind {
    /// A function, of the type with this number.
    Func(u32),
    Table(TablePlan),
    Memory(MemoryPlan),
    Global(GlobalPlan),
    /// A tag, of the type with this number.
    Tag(u32),
}

/// What an [`ImportEntry`] says.
pub struct ImportView {
    pub module: Seq<char>,
    pub name: Seq<char>,
    pub ty: ImportKind,
}

impl<'data> View for ImportEntry<'data> {
    type V = ImportView;

    open spec fn view(&self) -> ImportView {
        ImportView { module: self.module@, name: self.name@, ty: self.ty }
    }
}

/// The operator that a constant expression starts with.
#[derive(Debug)]
pub struct ConstOperator {
    /// What it does.
    pub op: ConstOp,
    /// How it is printed.
    pub text: String,
}

/// What an operator of a constant expression does.
#[derive(Clone, Copy, Debug, PartialEq, Eq, Structural)]
pub enum ConstOp {
    I32Const(i32),
    I64Const(i64),
    /// A 32-bit float, as its bits.
    F32Const(u32),
    /// A 64-bit float, as its bits.
    F64Const(u64),
    V128Const(u128),
    RefNull,
    /// A reference to the function with this number.
    RefFunc(u32),
    /// The value of the global with this number.
    GlobalGet(u32),
    Other,
}

/// What a [`ConstOperator`] says.
pub struct ConstOperatorView {
    pub op: ConstOp,
    pub text: Seq<char>,
}

impl View for ConstOperator {
    type V = ConstOperatorView;

    open spec fn view(&self) -> ConstOperatorView {
        ConstOperatorView { op: self.op, text: self.text@ }
    }
}

/// An entry of the table section.
#[derive(Debug)]
pub struct TableEntry {
    /// The type of the table.
    pub ty: TablePlan,
    /// What its elements start as: what an expression gives, or else null.
    pub init: Option<Read<ConstOperator>>,
}

/// What a [`TableEntry`] says.
pub struct TableEntryView {
    pub ty: TablePlan,
    pub init: Option<Result<ConstOperatorView, ReadErrorView>>,
}

impl View for TableEntry {
    type V = TableEntryView;

    open spec fn view(&self) -> TableEntryView {
        TableEntryView {
            ty: self.ty,
            init: match self.init {
                Some(init) => Some(read_view(init)),
                None => None,
            },
        }
    }
}

impl View for MemoryPlan {
    type V = MemoryPlan;

    open spec fn view(&self) -> MemoryPlan {
        *self
    }
}

/// An entry of the global section.
#[derive(Debug)]
pub struct GlobalEntry {
    /// The type of the global.
    pub ty: GlobalPlan,
    /// What its value starts as.
    pub init: Read<ConstOperator>,
}

/// What a [`GlobalEntry`] says.
pub struct GlobalEntryView {
    pub ty: GlobalPlan,
    pub init: Result<ConstOperatorView, ReadErrorView>,
}

impl View for GlobalEntry {
    type V = GlobalEntryView;

    open spec fn view(&self) -> GlobalEntryView {
        GlobalEntryView { ty: self.ty, init: read_view(self.init) }
    }
}

/// An entry of the export section.
#[derive(Clone, Copy, Debug)]
pub struct ExportEntry<'data> {
    /// The name to export under.
    pub name: &'data str,
    /// What is exported.
    pub kind: ExportKind,
    /// Its number among the entities of its kind.
    pub index: u32,
}

/// What an export is.
#[derive(Clone, Copy, Debug, PartialEq, Eq, Structural)]
pub enum ExportKind {
    Func,
    Table,
    Memory,
    Global,
    Tag,
}

/// What an [`ExportEntry`] says.
pub struct ExportView {
    pub name: Seq<char>,
    pub kind: ExportKind,
    pub index: u32,
}

impl<'data> View for ExportEntry<'data> {
    type V = ExportView;

    open spec fn view(&self) -> ExportView {
        ExportView { name: self.name@, kind: self.kind, index: self.index }
    }
}

/// An entry of the element section.
#[derive(Debug)]
pub struct ElementEntry {
    /// What the segment is for.
    pub place: ElementPlace,
    /// What it holds.
    pub items: ElementList,
}

/// What an element segment is for.
#[derive(Debug)]
pub enum ElementPlace {
    /// It is copied on demand.
    Passive,
    /// It initializes a table.
    Active {
        /// The table, the first one if it is not given.
        table_index: Option<u32>,
        /// Where in the table.
        offset: Read<ConstOperator>,
    },
    /// It only announces functions that are referred to.
    Declared,
}

/// What an element segment holds.
#[derive(Debug)]
pub enum ElementList {
    /// The functions with these numbers.
    Functions(Vec<Read<u32>>),
    /// What these expressions give.
    Expressions(Vec<Read<ConstOperator>>),
}

/// What an [`ElementEntry`] says.
pub struct ElementView {
    pub place: PlaceView,
    pub items: ElementListView,
}

/// What an [`ElementPlace`] says.
pub enum PlaceView {
    Passive,
    Active { table_index: Option<u32>, offset: Result<ConstOperatorView, ReadErrorView> },
    Declared,
}

/// What an [`ElementList`] says.
pub enum ElementListView {
    Functions(Seq<Result<u32, ReadErrorView>>),
    Expressions(Seq<Result<ConstOperatorView, ReadErrorView>>),
}

impl View for ElementPlace {
    type V = PlaceView;

    open spec fn view(&self) -> PlaceView {
        match self {
            ElementPlace::Passive => PlaceView::Passive,
            ElementPlace::Active { table_index, offset } => PlaceView::Active {
                table_index: *table_index,
                offset: read_view(*offset),
            },
            ElementPlace::Declared => PlaceView::Declared,
        }
    }
}

impl View for ElementList {
    type V = ElementListView;

    open spec fn view(&self) -> ElementListView {
        match self {
            ElementList::Functions(functions) => ElementListView::Functions(read_views(functions@)),
            ElementList::Expressions(expressions) => ElementListView::Expressions(
                read_views(expressions@),
            ),
        }
    }
}

impl View for ElementEntry {
    type V = ElementView;

    open spec fn view(&self) -> ElementView {
        ElementView { place: self.place@, items: self.items@ }
    }
}

/// The name of an entity.
#[derive(Clone, Copy, Debug)]
pub struct NameEntry<'data> {
    /// The number of the entity.
    pub index: u32,
    /// Its name.
    pub name: &'data str,
}

/// What a [`NameEntry`] says.
pub struct NameView {
    pub index: u32,
    pub name: Seq<char>,
}

impl<'data> View for NameEntry<'data> {
    type V = NameView;

    open spec fn view(&self) -> NameView {
        NameView { index: self.index, name: self.name@ }
    }
}

/// The names of the locals of a function.
#[derive(Debug)]
pub struct LocalNames<'data> {
    /// The number of the function.
    pub index: u32,
    /// The names of its locals.
    pub names: Vec<Read<NameEntry<'data>>>,
}

/// What a [`LocalNames`] says.
pub struct LocalNamesView {
    pub index: u32,
    pub names: Seq<Result<NameView, ReadErrorView>>,
}

impl<'data> View for LocalNames<'data> {
    type V = LocalNamesView;

    open spec fn view(&self) -> LocalNamesView {
        LocalNamesView { index: self.index, names: read_views(self.names@) }
    }
}

/// A part of the name section.
#[derive(Debug)]
pub enum NameSubsection<'data> {
    /// The name of the module.
    Module(&'data str),
    /// The names of functions.
    Function(Vec<Read<NameEntry<'data>>>),
    /// The names of the locals of functions.
    Local(Vec<Read<LocalNames<'data>>>),
    /// The names of globals.
    Global(Vec<Read<NameEntry<'data>>>),
    /// Names that the translation does not use.
    Other,
}

/// What a [`NameSubsection`] says.
pub enum NameSubsectionView {
    Module(Seq<char>),
    Function(Seq<Result<NameView, ReadErrorView>>),
    Local(Seq<Result<LocalNamesView, ReadErrorView>>),
    Global(Seq<Result<NameView, ReadErrorView>>),
    Other,
}

impl<'data> View for NameSubsection<'data> {
    type V = NameSubsectionView;

    open spec fn view(&self) -> NameSubsectionView {
        match self {
            NameSubsection::Module(name) => NameSubsectionView::Module(name@),
            NameSubsection::Function(names) => NameSubsectionView::Function(read_views(names@)),
            NameSubsection::Local(names) => NameSubsectionView::Local(read_views(names@)),
            NameSubsection::Global(names) => NameSubsectionView::Global(read_views(names@)),
            NameSubsection::Other => NameSubsectionView::Other,
        }
    }
}

/// The body of a function: where it starts in the input, its bytes, and
/// whether 64-bit memory offsets are allowed in it.
pub struct BodyView {
    pub start: nat,
    pub bytes: Seq<u8>,
    pub memarg64: bool,
}

/// What a function body is validated against: the number of the function, and
/// the number of its type.
pub struct FuncView {
    pub index: u32,
    pub ty: u32,
}

/// The types of the locals that a function body declares, each with the number
/// of locals that have it.
pub type LocalsView = Result<Seq<Result<(u32, WasmType), ReadErrorView>>, ReadErrorView>;

/// What the locals of a function body say.
pub open spec fn locals_view(locals: Read<Vec<Read<(u32, WasmType)>>>) -> LocalsView {
    match locals {
        Ok(locals) => Ok(
            Seq::new(
                locals@.len(),
                |i: int|
                    match locals@[i] {
                        Ok(pair) => Ok(pair),
                        Err(error) => Err(error@),
                    },
            ),
        ),
        Err(error) => Err(error@),
    }
}

/// A payload of a module.
pub enum ModulePayload<'data> {
    /// The header.
    Version { encoding: Encoding },
    /// The end of the module, with the types of what it holds.
    End { types: wasmparser::types::Types },
    /// The type section: what the validator knows of each of its types. There
    /// is nothing for an entry that declares no type.
    TypeSection(Vec<Option<DeclaredType>>),
    /// The import section.
    ImportSection(Vec<Read<ImportEntry<'data>>>),
    /// The function section: the number of the type of each function.
    FunctionSection(Vec<Read<u32>>),
    /// The table section.
    TableSection(Vec<Read<TableEntry>>),
    /// The memory section.
    MemorySection(Vec<Read<MemoryPlan>>),
    /// The tag section.
    TagSection,
    /// The global section.
    GlobalSection(Vec<Read<GlobalEntry>>),
    /// The export section.
    ExportSection(Vec<Read<ExportEntry<'data>>>),
    /// The start section: the number of the start function.
    StartSection { func: u32 },
    /// The element section.
    ElementSection(Vec<Read<ElementEntry>>),
    /// The start of the code section, at this offset.
    CodeSectionStart { start: usize },
    /// A function body.
    CodeSectionEntry {
        /// The body.
        body: wasmparser::FunctionBody<'data>,
        /// What it is validated against.
        validator: wasmparser::FuncToValidate<wasmparser::ValidatorResources>,
        /// The locals that it declares.
        locals: Read<Vec<Read<(u32, WasmType)>>>,
    },
    /// The data section: the bytes of each segment.
    DataSection(Vec<Read<&'data [u8]>>),
    /// The section that announces how many data segments there are.
    DataCountSection,
    /// The custom section with the names.
    NameSection(Vec<Read<NameSubsection<'data>>>),
    /// Another custom section.
    CustomSection { name: &'data str, data: &'data [u8] },
    /// Anything else.
    Other,
}

/// What a [`ModulePayload`] says.
pub enum PayloadView {
    Version { encoding: Encoding },
    End { types: Seq<DeclaredTypeView> },
    TypeSection(Seq<Option<DeclaredTypeView>>),
    ImportSection(Seq<Result<ImportView, ReadErrorView>>),
    FunctionSection(Seq<Result<u32, ReadErrorView>>),
    TableSection(Seq<Result<TableEntryView, ReadErrorView>>),
    MemorySection(Seq<Result<MemoryPlan, ReadErrorView>>),
    TagSection,
    GlobalSection(Seq<Result<GlobalEntryView, ReadErrorView>>),
    ExportSection(Seq<Result<ExportView, ReadErrorView>>),
    StartSection { func: u32 },
    ElementSection(Seq<Result<ElementView, ReadErrorView>>),
    CodeSectionStart { start: usize },
    CodeSectionEntry { body: BodyView, validator: FuncView, locals: LocalsView },
    DataSection(Seq<Result<Seq<u8>, ReadErrorView>>),
    DataCountSection,
    NameSection(Seq<Result<NameSubsectionView, ReadErrorView>>),
    CustomSection { name: Seq<char>, data: Seq<u8> },
    Other,
}

/// What the types that a type section declares say.
pub open spec fn declared_views(types: Seq<Option<DeclaredType>>) -> Seq<Option<DeclaredTypeView>> {
    Seq::new(
        types.len(),
        |i: int|
            match types[i] {
                Some(ty) => Some(ty@),
                None => None,
            },
    )
}

impl<'data> View for ModulePayload<'data> {
    type V = PayloadView;

    open spec fn view(&self) -> PayloadView {
        match self {
            ModulePayload::Version { encoding } => PayloadView::Version { encoding: *encoding },
            ModulePayload::End { types } => PayloadView::End { types: types_view(*types) },
            ModulePayload::TypeSection(types) => PayloadView::TypeSection(declared_views(types@)),
            ModulePayload::ImportSection(entries) => PayloadView::ImportSection(
                read_views(entries@),
            ),
            ModulePayload::FunctionSection(entries) => PayloadView::FunctionSection(
                read_views(entries@),
            ),
            ModulePayload::TableSection(entries) => PayloadView::TableSection(read_views(entries@)),
            ModulePayload::MemorySection(entries) => PayloadView::MemorySection(
                read_views(entries@),
            ),
            ModulePayload::TagSection => PayloadView::TagSection,
            ModulePayload::GlobalSection(entries) => PayloadView::GlobalSection(
                read_views(entries@),
            ),
            ModulePayload::ExportSection(entries) => PayloadView::ExportSection(
                read_views(entries@),
            ),
            ModulePayload::StartSection { func } => PayloadView::StartSection { func: *func },
            ModulePayload::ElementSection(entries) => PayloadView::ElementSection(
                read_views(entries@),
            ),
            ModulePayload::CodeSectionStart { start } => PayloadView::CodeSectionStart {
                start: *start,
            },
            ModulePayload::CodeSectionEntry {
                body,
                validator,
                locals,
            } => PayloadView::CodeSectionEntry {
                body: body_view(*body),
                validator: func_view(*validator),
                locals: locals_view(*locals),
            },
            ModulePayload::DataSection(entries) => PayloadView::DataSection(read_views(entries@)),
            ModulePayload::DataCountSection => PayloadView::DataCountSection,
            ModulePayload::NameSection(entries) => PayloadView::NameSection(read_views(entries@)),
            ModulePayload::CustomSection { name, data } => PayloadView::CustomSection {
                name: name@,
                data: data@,
            },
            ModulePayload::Other => PayloadView::Other,
        }
    }
}

} // verus!

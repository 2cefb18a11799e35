//! What is known of a payload before it is taken: what the parser and the
//! validator say of it.
use vstd::prelude::*;

use super::error::ReadErrorView;
use super::parser::{
    const_view, expressions_of, func_view, functions_of, local_names_of, names_of, ref_type_view,
    type_ref_view, types_view, val_type_view,
};
use super::payload::{
    BodyView, CompositeView, DeclaredTypeView, ElementListView, ElementView, Encoding, ExportView,
    FuncView, GlobalEntryView, ImportKind, ImportView, LocalNamesView, LocalsView,
    NameSubsectionView, PlaceView, TableEntryView,
};
use super::types::{FuncTypeView, GlobalPlan, MemoryPlan, TablePlan, WasmType};

verus! {

/// The WebAssembly proposals that a validator allows.
#[derive(Clone, Copy, Debug, PartialEq, Eq, Structural)]
pub struct WasmFeatures {
    pub mutable_global: bool,
    pub saturating_float_to_int: bool,
    pub sign_extension: bool,
    pub reference_types: bool,
    pub multi_value: bool,
    pub bulk_memory: bool,
    pub simd: bool,
    pub relaxed_simd: bool,
    pub threads: bool,
    pub tail_call: bool,
    pub floats: bool,
    pub multi_memory: bool,
    pub exceptions: bool,
    pub memory64: bool,
    pub extended_const: bool,
    pub component_model: bool,
    pub function_references: bool,
    pub memory_control: bool,
    pub gc: bool,
    pub component_model_values: bool,
}

/// A payload of the input: its section number, if it is a section, where it
/// starts and ends, its bytes, and what they mean.
pub struct RawView {
    pub id: Option<u8>,
    pub start: nat,
    pub end: nat,
    pub bytes: Seq<u8>,
    pub content: ContentView,
}

/// What the bytes of a payload mean.
pub enum ContentView {
    Version { encoding: Encoding },
    End,
    TypeSection { count: u32 },
    ImportSection(Seq<Result<ImportView, ReadErrorView>>),
    FunctionSection(Seq<Result<u32, ReadErrorView>>),
    TableSection(Seq<Result<TableEntryView, ReadErrorView>>),
    MemorySection(Seq<Result<MemoryPlan, ReadErrorView>>),
    TagSection,
    GlobalSection(Seq<Result<GlobalEntryView, ReadErrorView>>),
    ExportSection(Seq<Result<ExportView, ReadErrorView>>),
    StartSection { func: u32 },
    ElementSection(Seq<Result<ElementView, ReadErrorView>>),
    CodeSectionStart { start: usize, count: u32 },
    CodeSectionEntry { body: BodyView, locals: LocalsView },
    DataSection(Seq<Result<Seq<u8>, ReadErrorView>>),
    DataCountSection,
    CustomSection { name: Seq<char>, data: Seq<u8>, offset: usize },
    Other,
}

/// A validator: the proposals that it allows, and the payloads that it has
/// accepted.
pub struct ValidatorView {
    pub features: WasmFeatures,
    pub accepted: Seq<RawView>,
}

/// What a validator hands out for a payload that it accepts.
pub enum ValidView {
    /// Nothing.
    Done,
    /// What a function body is validated against.
    Func(FuncView),
    /// The types of what the module holds.
    End(Seq<DeclaredTypeView>),
}

/// What a validator hands out for a payload that it accepts.
pub enum Validated {
    Done,
    Func(wasmparser::FuncToValidate<wasmparser::ValidatorResources>),
    End(wasmparser::types::Types),
}

impl View for Validated {
    type V = ValidView;

    open spec fn view(&self) -> ValidView {
        match self {
            Validated::Done => ValidView::Done,
            Validated::Func(func) => ValidView::Func(func_view(*func)),
            Validated::End(types) => ValidView::End(types_view(*types)),
        }
    }
}

/// The payloads that consist of a few values.
pub enum Part<'a> {
    End,
    TypeSection { count: u32 },
    TagSection,
    StartSection { func: u32 },
    CodeSectionStart { start: usize },
    CodeSectionEntry { body: wasmparser::FunctionBody<'a> },
    DataCountSection,
    /// Another payload.
    Other,
}

/// The contents of a custom section.
pub struct CustomPart<'a> {
    /// Its name.
    pub name: &'a str,
    /// Its bytes after the name.
    pub data: &'a [u8],
    /// Where these start.
    pub offset: usize,
}

/// A type that a module declares.
pub struct RawType {
    pub is_final: bool,
    pub has_supertype: bool,
    pub composite: RawComposite,
}

/// What a declared type consists of.
pub enum RawComposite {
    Func { params: Vec<wasmparser::ValType>, results: Vec<wasmparser::ValType> },
    Array,
    Struct,
}

/// The type of a value.
pub enum RawVal {
    /// It is no reference.
    Plain(WasmType),
    Reference(wasmparser::RefType),
}

impl View for RawVal {
    type V = WasmType;

    open spec fn view(&self) -> WasmType {
        match self {
            RawVal::Plain(ty) => *ty,
            RawVal::Reference(ty) => WasmType::Ref(ref_type_view(*ty)),
        }
    }
}

/// What a sequence of value types says.
pub open spec fn val_type_views(types: Seq<wasmparser::ValType>) -> Seq<WasmType> {
    Seq::new(types.len(), |i: int| val_type_view(types[i]))
}

impl View for RawType {
    type V = DeclaredTypeView;

    open spec fn view(&self) -> DeclaredTypeView {
        DeclaredTypeView {
            is_final: self.is_final,
            has_supertype: self.has_supertype,
            composite: match self.composite {
                RawComposite::Func { params, results } => CompositeView::Func(
                    FuncTypeView {
                        params: val_type_views(params@),
                        results: val_type_views(results@),
                    },
                ),
                RawComposite::Array => CompositeView::Array,
                RawComposite::Struct => CompositeView::Struct,
            },
        }
    }
}

/// The type of a table.
pub struct RawTable {
    pub element: wasmparser::RefType,
    pub minimum: u32,
    pub maximum: Option<u32>,
}

impl View for RawTable {
    type V = TablePlan;

    open spec fn view(&self) -> TablePlan {
        TablePlan {
            element: ref_type_view(self.element),
            minimum: self.minimum,
            maximum: self.maximum,
        }
    }
}

/// The type of a global.
pub struct RawGlobal {
    pub content: wasmparser::ValType,
    pub mutable: bool,
}

impl View for RawGlobal {
    type V = GlobalPlan;

    open spec fn view(&self) -> GlobalPlan {
        GlobalPlan { ty: val_type_view(self.content), mutable: self.mutable }
    }
}

/// An entry of the import section.
pub struct RawImport<'a> {
    pub module: &'a str,
    pub name: &'a str,
    pub ty: wasmparser::TypeRef,
}

/// What an import is.
pub enum RawKind {
    Func(u32),
    Table(RawTable),
    Memory(MemoryPlan),
    Global(RawGlobal),
    Tag(u32),
}

impl View for RawKind {
    type V = ImportKind;

    open spec fn view(&self) -> ImportKind {
        match self {
            RawKind::Func(ty) => ImportKind::Func(*ty),
            RawKind::Table(table) => ImportKind::Table(table@),
            RawKind::Memory(memory) => ImportKind::Memory(*memory),
            RawKind::Global(global) => ImportKind::Global(global@),
            RawKind::Tag(ty) => ImportKind::Tag(*ty),
        }
    }
}

impl<'a> View for RawImport<'a> {
    type V = ImportView;

    open spec fn view(&self) -> ImportView {
        ImportView { module: self.module@, name: self.name@, ty: type_ref_view(self.ty) }
    }
}

/// An entry of the table section.
pub struct RawTableEntry<'a> {
    pub ty: RawTable,
    pub init: Option<wasmparser::ConstExpr<'a>>,
}

impl<'a> View for RawTableEntry<'a> {
    type V = TableEntryView;

    open spec fn view(&self) -> TableEntryView {
        TableEntryView {
            ty: self.ty@,
            init: match self.init {
                Some(init) => Some(const_view(init)),
                None => None,
            },
        }
    }
}

/// An entry of the global section.
pub struct RawGlobalEntry<'a> {
    pub ty: RawGlobal,
    pub init: wasmparser::ConstExpr<'a>,
}

impl<'a> View for RawGlobalEntry<'a> {
    type V = GlobalEntryView;

    open spec fn view(&self) -> GlobalEntryView {
        GlobalEntryView { ty: self.ty@, init: const_view(self.init) }
    }
}

/// An entry of the element section.
pub struct RawElement<'a> {
    pub place: RawPlace<'a>,
    pub items: RawItems<'a>,
}

/// What an element segment is for.
pub enum RawPlace<'a> {
    Passive,
    Active { table_index: Option<u32>, offset: wasmparser::ConstExpr<'a> },
    Declared,
}

/// What an element segment holds.
pub enum RawItems<'a> {
    Functions(wasmparser::SectionLimited<'a, u32>),
    Expressions(wasmparser::SectionLimited<'a, wasmparser::ConstExpr<'a>>),
}

impl<'a> View for RawElement<'a> {
    type V = ElementView;

    open spec fn view(&self) -> ElementView {
        ElementView {
            place: match self.place {
                RawPlace::Passive => PlaceView::Passive,
                RawPlace::Active { table_index, offset } => PlaceView::Active {
                    table_index,
                    offset: const_view(offset),
                },
                RawPlace::Declared => PlaceView::Declared,
            },
            items: match self.items {
                RawItems::Functions(functions) => ElementListView::Functions(
                    functions_of(functions),
                ),
                RawItems::Expressions(expressions) => ElementListView::Expressions(
                    expressions_of(expressions),
                ),
            },
        }
    }
}

/// A part of the name section.
pub enum RawNames<'a> {
    Module(&'a str),
    Function(wasmparser::SectionLimited<'a, wasmparser::Naming<'a>>),
    Local(wasmparser::SectionLimited<'a, wasmparser::IndirectNaming<'a>>),
    Global(wasmparser::SectionLimited<'a, wasmparser::Naming<'a>>),
    Other,
}

impl<'a> View for RawNames<'a> {
    type V = NameSubsectionView;

    open spec fn view(&self) -> NameSubsectionView {
        match self {
            RawNames::Module(name) => NameSubsectionView::Module(name@),
            RawNames::Function(names) => NameSubsectionView::Function(names_of(*names)),
            RawNames::Local(names) => NameSubsectionView::Local(local_names_of(*names)),
            RawNames::Global(names) => NameSubsectionView::Global(names_of(*names)),
            RawNames::Other => NameSubsectionView::Other,
        }
    }
}

/// The names of the locals of a function.
pub struct RawLocalNames<'a> {
    pub index: u32,
    pub names: wasmparser::SectionLimited<'a, wasmparser::Naming<'a>>,
}

impl<'a> View for RawLocalNames<'a> {
    type V = LocalNamesView;

    open spec fn view(&self) -> LocalNamesView {
        LocalNamesView { index: self.index, names: names_of(self.names) }
    }
}

} // verus!

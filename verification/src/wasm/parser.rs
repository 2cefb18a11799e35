//! `wasmparser`: what it makes of the bytes of a module, and what it says of
//! the validity of what it finds there.
//!
//! Nothing here is proved. A function without a body names what is read from a
//! value that cannot be seen through; the functions with a body read it.
//!
//! Entries are collected through `map_while`, which promises no number of them:
//! a section that announces more entries than it has reserves no room for them.
use vstd::prelude::*;
use wasmparser::types::TypeIdentifier;
use wasmparser::{
    ElementItems, ElementKind, ExternalKind, HeapType, Name, Operator, Payload, TableInit, TypeRef,
    UnpackedIndex,
};

use super::error::{read_view, read_views, Read, ReadError, ReadErrorView};
use super::offsets::{first_can_be_read, offsets_fit};
use super::order::{
    are_of_a_module, bodies_announced, come_in_order, comes_in_order, ends_with_end,
    functions_declared,
};
use super::payload::{
    BodyView, ConstOp, ConstOperator, ConstOperatorView, DeclaredTypeView, Encoding, ExportEntry,
    ExportKind, FuncView, ImportKind, LocalNamesView, LocalsView, NameEntry, NameSubsectionView,
    NameView,
};
use super::raw::{
    ContentView, CustomPart, Part, RawComposite, RawElement, RawGlobal, RawGlobalEntry, RawImport,
    RawItems, RawKind, RawLocalNames, RawNames, RawPlace, RawTable, RawTableEntry, RawType, RawVal,
    RawView, ValidView, Validated, ValidatorView, WasmFeatures,
};
use super::types::{MemoryPlan, WasmHeapType, WasmRefType, WasmType};

verus! {

/// `wasmparser::Payload`: a payload of the input.
#[verifier::external_type_specification]
#[verifier::external_body]
pub struct ExPayload<'a>(wasmparser::Payload<'a>);

/// `wasmparser::Validator`.
#[verifier::external_type_specification]
#[verifier::external_body]
pub struct ExValidator(wasmparser::Validator);

/// `wasmparser::FunctionBody`: the body of a function.
#[verifier::external_type_specification]
#[verifier::external_body]
pub struct ExFunctionBody<'a>(wasmparser::FunctionBody<'a>);

/// `wasmparser::FuncToValidate`: what a function body is validated against.
#[verifier::external_type_specification]
#[verifier::external_body]
#[verifier::reject_recursive_types(T)]
pub struct ExFuncToValidate<T>(wasmparser::FuncToValidate<T>);

/// `wasmparser::ValidatorResources`. Nothing is claimed of it.
#[verifier::external_type_specification]
#[verifier::external_body]
pub struct ExValidatorResources(wasmparser::ValidatorResources);

/// `wasmparser::types::Types`: the types of what a module holds.
#[verifier::external_type_specification]
#[verifier::external_body]
pub struct ExTypes(wasmparser::types::Types);

/// `wasmparser::ValType`: the type of a value.
#[verifier::external_type_specification]
#[verifier::external_body]
pub struct ExValType(wasmparser::ValType);

/// `wasmparser::RefType`: the type of a reference.
#[verifier::external_type_specification]
#[verifier::external_body]
pub struct ExRefType(wasmparser::RefType);

/// `wasmparser::ConstExpr`: a constant expression.
#[verifier::external_type_specification]
#[verifier::external_body]
pub struct ExConstExpr<'a>(wasmparser::ConstExpr<'a>);

/// `wasmparser::SectionLimited`: items that are read one after the other.
#[verifier::external_type_specification]
#[verifier::external_body]
#[verifier::reject_recursive_types(T)]
pub struct ExSectionLimited<'a, T>(wasmparser::SectionLimited<'a, T>);

/// `wasmparser::TypeRef`: what an import is.
#[verifier::external_type_specification]
#[verifier::external_body]
pub struct ExTypeRef(wasmparser::TypeRef);

/// `wasmparser::Naming`. Nothing is claimed of it.
#[verifier::external_type_specification]
#[verifier::external_body]
pub struct ExNaming<'a>(wasmparser::Naming<'a>);

/// `wasmparser::IndirectNaming`. Nothing is claimed of it.
#[verifier::external_type_specification]
#[verifier::external_body]
pub struct ExIndirectNaming<'a>(wasmparser::IndirectNaming<'a>);

/// The payload that a `Payload` is.
pub uninterp spec fn payload_view(payload: wasmparser::Payload<'_>) -> RawView;

/// What the payloads of the input are.
pub open spec fn payload_views(payloads: Seq<Read<wasmparser::Payload<'_>>>) -> Seq<
    Result<RawView, ReadErrorView>,
> {
    Seq::new(
        payloads.len(),
        |i: int|
            match payloads[i] {
                Ok(payload) => Ok(payload_view(payload)),
                Err(error) => Err(error@),
            },
    )
}

/// The payloads that `data` consists of, when it starts at `offset`.
pub uninterp spec fn payloads(offset: u64, data: Seq<u8>) -> Seq<Result<RawView, ReadErrorView>>;

/// The first `n` of `found`, or all of them.
pub open spec fn first_of(
    found: Seq<Result<RawView, ReadErrorView>>,
    n: Option<usize>,
) -> Seq<Result<RawView, ReadErrorView>> {
    match n {
        Some(n) if n < found.len() => found.take(n as int),
        _ => found,
    }
}

/// `wasmparser::Parser::parse_all`: the payloads of `data`, as far as there is
/// no error, then the error if there is one; of these the first `n`, or all.
/// The last of all is the end of what `data` holds, unless there is an error.
/// The header comes first, and as many function bodies as a code section
/// announces come right after its start.
#[verifier::external_body]
pub(crate) fn parse_all<'a>(offset: u64, data: &'a [u8], n: Option<usize>) -> (found: Vec<
    Read<wasmparser::Payload<'a>>,
>)
    requires
        offsets_fit(offset, data@),
        first_can_be_read(offset, data@, n),
    ensures
        payload_views(found@) == first_of(payloads(offset, data@), n),
        n is None ==> ends_with_end(payload_views(found@)),
        come_in_order(payload_views(found@)),
{
    wasmparser::Parser::new(offset)
        .parse_all(data)
        .take(n.unwrap_or(usize::MAX))
        .map(|p| p.map_err(|e| ReadError { message: e.message().to_string(), offset: e.offset() }))
        .collect()
}

/// What a `Validator` is.
pub uninterp spec fn validator_view(validator: wasmparser::Validator) -> ValidatorView;

/// What a validator says of the payload that comes next.
pub uninterp spec fn validation(validator: ValidatorView, next: RawView) -> Result<
    ValidView,
    ReadErrorView,
>;

/// The types that the module under validation has declared, in the order of
/// their numbers.
pub uninterp spec fn declared_types(validator: ValidatorView) -> Seq<DeclaredTypeView>;

/// What a `FuncToValidate` is.
pub uninterp spec fn func_view(
    func: wasmparser::FuncToValidate<wasmparser::ValidatorResources>,
) -> FuncView;

/// The types that a `Types` lists, in the order of their numbers.
pub uninterp spec fn types_view(types: wasmparser::types::Types) -> Seq<DeclaredTypeView>;

/// `wasmparser::Validator::new_with_features`: a validator that allows the
/// proposals in `f` and has accepted nothing yet.
#[verifier::external_body]
pub(crate) fn new_validator(f: &WasmFeatures) -> (validator: wasmparser::Validator)
    ensures
        validator_view(validator) == (ValidatorView { features: *f, accepted: Seq::empty() }),
{
    wasmparser::Validator::new_with_features(wasmparser::WasmFeatures {
        mutable_global: f.mutable_global, saturating_float_to_int: f.saturating_float_to_int,
        sign_extension: f.sign_extension, reference_types: f.reference_types,
        multi_value: f.multi_value, bulk_memory: f.bulk_memory, simd: f.simd,
        relaxed_simd: f.relaxed_simd, threads: f.threads, tail_call: f.tail_call,
        floats: f.floats, multi_memory: f.multi_memory, exceptions: f.exceptions,
        memory64: f.memory64, extended_const: f.extended_const,
        component_model: f.component_model, function_references: f.function_references,
        memory_control: f.memory_control, gc: f.gc,
        component_model_values: f.component_model_values,
    })
}

/// Whether a validator can be given the payload that comes next: it validates
/// a module, and the payload comes in order.
pub open spec fn can_be_validated(validator: ValidatorView, next: RawView) -> bool {
    &&& !(next.content is CustomSection)
    &&& comes_in_order(validator.accepted, next)
    &&& are_of_a_module(validator.accepted)
}

/// `wasmparser::Validator::payload`: whether the payload that comes next is
/// valid. There is something to validate a body against for each function
/// body and for nothing else, and the end of a module, and nothing else, comes
/// with the types that were declared. A module that ends has announced as many
/// function bodies as it has declared functions. Of a validator that has found
/// an error nothing is said.
#[verifier::external_body]
pub(crate) fn validate(
    validator: &mut wasmparser::Validator,
    payload: &wasmparser::Payload<'_>,
) -> (valid: Read<Validated>)
    requires
        can_be_validated(validator_view(*old(validator)), payload_view(*payload)),
    ensures
        match validation(validator_view(*old(validator)), payload_view(*payload)) {
            Ok(ValidView::Done) => valid matches Ok(Validated::Done),
            Ok(ValidView::Func(found)) => valid matches Ok(Validated::Func(func)) && func_view(func)
                == found,
            Ok(ValidView::End(found)) => valid matches Ok(Validated::End(types)) && types_view(
                types,
            ) == found,
            Err(found) => valid matches Err(error) && error@ == found,
        },
        match valid {
            Ok(valid) => {
                let before = validator_view(*old(validator));
                let next = payload_view(*payload);
                &&& validator_view(*final(validator)) == (ValidatorView {
                    features: before.features,
                    accepted: before.accepted.push(next),
                })
                &&& valid is Func <==> next.content is CodeSectionEntry
                &&& valid is End <==> next.content is End
                &&& valid matches Validated::End(types) ==> types_view(types) == declared_types(
                    before,
                )
                &&& valid is End ==> functions_declared(before.accepted) == bodies_announced(
                    before.accepted,
                )
            },
            Err(_) => true,
        },
{
    match validator.payload(payload) {
        Ok(wasmparser::ValidPayload::Func(func, _)) => Ok(Validated::Func(func)),
        Ok(wasmparser::ValidPayload::End(types)) => Ok(Validated::End(types)),
        Ok(_) => Ok(Validated::Done),
        Err(e) => Err(ReadError { message: e.message().to_string(), offset: e.offset() }),
    }
}

/// Whether the last payload that was accepted is a type section, so that a
/// module is under validation.
pub open spec fn has_type_section(validator: ValidatorView) -> bool {
    validator.accepted.len() > 0 && validator.accepted.last().content is TypeSection
}

/// `wasmparser::types::TypesRef::core_type_count`, of the module under
/// validation: the number of types that it has declared.
#[verifier::external_body]
pub(crate) fn core_type_count(validator: &wasmparser::Validator) -> (count: u32)
    requires
        has_type_section(validator_view(*validator)),
    ensures
        count == declared_types(validator_view(*validator)).len(),
{
    validator.types(0).unwrap().core_type_count()
}

/// `wasmparser::types::TypesRef::core_type_at`, of the module under
/// validation: the type with this number.
#[verifier::external_body]
pub(crate) fn core_type_at(validator: &wasmparser::Validator, index: u32) -> (ty: RawType)
    requires
        has_type_section(validator_view(*validator)),
        index < declared_types(validator_view(*validator)).len(),
    ensures
        ty@ == declared_types(validator_view(*validator))[index as int],
{
    let types = validator.types(0).unwrap();
    let ty = &types[types.core_type_at(index).unwrap_sub()];
    RawType {
        is_final: ty.is_final,
        has_supertype: ty.supertype_idx.is_some(),
        composite: match &ty.composite_type {
            wasmparser::CompositeType::Func(func) => RawComposite::Func {
                params: func.params().to_vec(),
                results: func.results().to_vec(),
            },
            wasmparser::CompositeType::Array(_) => RawComposite::Array,
            wasmparser::CompositeType::Struct(_) => RawComposite::Struct,
        },
    }
}

/// The type that a `ValType` is.
pub uninterp spec fn val_type_view(ty: wasmparser::ValType) -> WasmType;

/// The type that a `RefType` is.
pub uninterp spec fn ref_type_view(ty: wasmparser::RefType) -> WasmRefType;

/// `wasmparser::ValType`, taken apart.
#[verifier::external_body]
pub(crate) fn val_type_parts(ty: wasmparser::ValType) -> (parts: RawVal)
    ensures
        parts@ == val_type_view(ty),
{
    match ty {
        wasmparser::ValType::I32 => RawVal::Plain(WasmType::I32),
        wasmparser::ValType::I64 => RawVal::Plain(WasmType::I64),
        wasmparser::ValType::F32 => RawVal::Plain(WasmType::F32),
        wasmparser::ValType::F64 => RawVal::Plain(WasmType::F64),
        wasmparser::ValType::V128 => RawVal::Plain(WasmType::V128),
        wasmparser::ValType::Ref(reference) => RawVal::Reference(reference),
    }
}

/// `wasmparser::RefType::is_nullable` and `wasmparser::RefType::heap_type`:
/// what a reference type says.
#[verifier::external_body]
pub(crate) fn ref_type(ty: wasmparser::RefType) -> (reference: WasmRefType)
    ensures
        reference == ref_type_view(ty),
{
    let heap_type = match ty.heap_type() {
        HeapType::Func => WasmHeapType::Func, HeapType::Extern => WasmHeapType::Extern,
        HeapType::Any => WasmHeapType::Any, HeapType::None => WasmHeapType::NoAny,
        HeapType::NoExtern => WasmHeapType::NoExtern, HeapType::NoFunc => WasmHeapType::NoFunc,
        HeapType::Eq => WasmHeapType::Eq, HeapType::Struct => WasmHeapType::Struct,
        HeapType::Array => WasmHeapType::Array, HeapType::I31 => WasmHeapType::I31,
        HeapType::Concrete(UnpackedIndex::Module(n)) => WasmHeapType::Module(n),
        HeapType::Concrete(UnpackedIndex::RecGroup(n)) => WasmHeapType::RecGroup(n),
        HeapType::Concrete(UnpackedIndex::Id(id)) => WasmHeapType::Id(id.index()),
    };
    WasmRefType { nullable: ty.is_nullable(), heap_type }
}

/// The import that a `TypeRef` is.
pub uninterp spec fn type_ref_view(ty: wasmparser::TypeRef) -> ImportKind;

/// `wasmparser::TypeRef`, taken apart.
#[verifier::external_body]
pub(crate) fn type_ref_parts(ty: wasmparser::TypeRef) -> (kind: RawKind)
    ensures
        kind@ == type_ref_view(ty),
{
    match ty {
        TypeRef::Func(ty) => RawKind::Func(ty),
        TypeRef::Table(t) => RawKind::Table(RawTable {
            element: t.element_type, minimum: t.initial, maximum: t.maximum }),
        TypeRef::Memory(m) => RawKind::Memory(MemoryPlan {
            memory64: m.memory64, shared: m.shared, minimum: m.initial, maximum: m.maximum }),
        TypeRef::Global(g) => RawKind::Global(RawGlobal {
            content: g.content_type, mutable: g.mutable }),
        TypeRef::Tag(t) => RawKind::Tag(t.func_type_idx),
    }
}

/// What the operator that a constant expression starts with is, or the error
/// that reading it gives.
pub uninterp spec fn const_view(expression: wasmparser::ConstExpr<'_>) -> Result<
    ConstOperatorView,
    ReadErrorView,
>;

/// `wasmparser::BinaryReader::read_operator`, on a constant expression: the
/// operator that it starts with, and how `Debug` prints it.
#[verifier::external_body]
pub(crate) fn const_operator(expression: &wasmparser::ConstExpr<'_>) -> (operator: Read<
    ConstOperator,
>)
    ensures
        read_view(operator) == const_view(*expression),
{
    match expression.get_binary_reader().read_operator() {
        Ok(o) => Ok(ConstOperator { text: format!("{o:?}"), op: match o {
            Operator::I32Const { value } => ConstOp::I32Const(value),
            Operator::I64Const { value } => ConstOp::I64Const(value),
            Operator::F32Const { value } => ConstOp::F32Const(value.bits()),
            Operator::F64Const { value } => ConstOp::F64Const(value.bits()),
            Operator::V128Const { value } => ConstOp::V128Const(value.i128() as u128),
            Operator::RefNull { .. } => ConstOp::RefNull,
            Operator::RefFunc { function_index } => ConstOp::RefFunc(function_index),
            Operator::GlobalGet { global_index } => ConstOp::GlobalGet(global_index),
            _ => ConstOp::Other,
        } }),
        Err(e) => Err(ReadError { message: e.message().to_string(), offset: e.offset() }),
    }
}

/// The body that a `FunctionBody` is.
pub uninterp spec fn body_view(body: wasmparser::FunctionBody<'_>) -> BodyView;

/// The locals that a function body declares.
pub uninterp spec fn locals_of(body: wasmparser::FunctionBody<'_>) -> LocalsView;

/// `wasmparser::FunctionBody::allow_memarg64`: whether 64-bit memory offsets
/// are allowed in the body is what `allow` says; the body stays as it is.
#[verifier::external_body]
pub(crate) fn allow_memarg64(body: &mut wasmparser::FunctionBody<'_>, allow: bool)
    ensures
        body_view(*final(body)) == (BodyView { memarg64: allow, ..body_view(*old(body)) }),
{
    body.allow_memarg64(allow);
}

/// What the locals of a function body say.
pub open spec fn raw_locals_view(
    locals: Read<Vec<Read<(u32, wasmparser::ValType)>>>,
) -> LocalsView {
    match locals {
        Ok(locals) => Ok(
            Seq::new(
                locals@.len(),
                |i: int|
                    match locals@[i] {
                        Ok(pair) => Ok((pair.0, val_type_view(pair.1))),
                        Err(error) => Err(error@),
                    },
            ),
        ),
        Err(error) => Err(error@),
    }
}

/// `wasmparser::FunctionBody::get_locals_reader`: the locals that the body
/// declares.
#[verifier::external_body]
pub(crate) fn body_locals(body: &wasmparser::FunctionBody<'_>) -> (locals: Read<
    Vec<Read<(u32, wasmparser::ValType)>>,
>)
    ensures
        raw_locals_view(locals) == locals_of(*body),
{
    let error = |e: wasmparser::BinaryReaderError| ReadError {
        message: e.message().to_string(),
        offset: e.offset(),
    };
    match body.get_locals_reader() {
        Ok(reader) => Ok(reader.into_iter().map_while(|pair| Some(pair.map_err(error))).collect()),
        Err(e) => Err(error(e)),
    }
}

/// `wasmparser::Payload::Version`, taken apart.
#[verifier::external_body]
pub(crate) fn version(payload: &wasmparser::Payload<'_>) -> (encoding: Option<Encoding>)
    ensures
        match payload_view(*payload).content {
            ContentView::Version { encoding: found } => encoding == Some(found),
            _ => encoding is None,
        },
{
    match payload {
        wasmparser::Payload::Version { encoding: wasmparser::Encoding::Module, .. } => {
            Some(Encoding::Module)
        },
        wasmparser::Payload::Version { encoding: wasmparser::Encoding::Component, .. } => {
            Some(Encoding::Component)
        },
        _ => None,
    }
}

/// `wasmparser::CustomSectionReader`, taken apart.
#[verifier::external_body]
pub(crate) fn custom_part<'a>(payload: &wasmparser::Payload<'a>) -> (part: Option<CustomPart<'a>>)
    ensures
        match payload_view(*payload).content {
            ContentView::CustomSection { name, data, offset } => part matches Some(found)
                && found.name@ == name && found.data@ == data && found.offset == offset,
            _ => part is None,
        },
{
    match payload {
        wasmparser::Payload::CustomSection(section) => Some(CustomPart {
            name: section.name(),
            data: section.data(),
            offset: section.data_offset(),
        }),
        _ => None,
    }
}

/// The payloads of `wasmparser::Payload` that consist of a few values, taken
/// apart.
#[verifier::external_body]
pub(crate) fn part<'a>(payload: &wasmparser::Payload<'a>) -> (part: Part<'a>)
    ensures
        match payload_view(*payload).content {
            ContentView::End => part is End,
            ContentView::TypeSection { count } => part == (Part::TypeSection { count }),
            ContentView::TagSection => part is TagSection,
            ContentView::StartSection { func } => part == (Part::StartSection { func }),
            ContentView::CodeSectionStart { start, count } => part == (Part::CodeSectionStart {
                start,
            }),
            ContentView::CodeSectionEntry { body: found, locals } => {
                part matches Part::CodeSectionEntry { body } && body_view(body) == found
                    && locals_of(body) == locals
            },
            ContentView::DataCountSection => part is DataCountSection,
            _ => part is Other,
        },
{
    match payload {
        Payload::End(_) => Part::End,
        Payload::TypeSection(section) => Part::TypeSection { count: section.count() },
        Payload::TagSection(_) => Part::TagSection,
        Payload::StartSection { func, .. } => Part::StartSection { func: *func },
        Payload::CodeSectionStart { range, .. } => Part::CodeSectionStart { start: range.start },
        Payload::CodeSectionEntry(body) => Part::CodeSectionEntry { body: body.clone() },
        Payload::DataCountSection { .. } => Part::DataCountSection,
        _ => Part::Other,
    }
}

/// The entries of the import section, as `wasmparser::SectionLimited` reads them.
#[verifier::external_body]
pub(crate) fn imports<'a>(payload: &wasmparser::Payload<'a>) -> (entries: Option<
    Vec<Read<RawImport<'a>>>,
>)
    ensures
        match payload_view(*payload).content {
            ContentView::ImportSection(found) => entries matches Some(items) && read_views(items@)
                == found,
            _ => entries is None,
        },
{
    let wasmparser::Payload::ImportSection(section) = payload else {
        return None;
    };
    Some(section.clone().into_iter().map_while(|entry| Some(match entry {
        Ok(i) => Ok(RawImport { module: i.module, name: i.name, ty: i.ty }),
        Err(e) => Err(ReadError { message: e.message().to_string(), offset: e.offset() }),
    })).collect())
}

/// The entries of the function section, as `wasmparser::SectionLimited` reads
/// them.
#[verifier::external_body]
pub(crate) fn functions<'a>(payload: &wasmparser::Payload<'a>) -> (entries: Option<Vec<Read<u32>>>)
    ensures
        match payload_view(*payload).content {
            ContentView::FunctionSection(found) => entries matches Some(items) && read_views(items@)
                == found,
            _ => entries is None,
        },
{
    let wasmparser::Payload::FunctionSection(section) = payload else {
        return None;
    };
    Some(section.clone().into_iter().map_while(|entry| Some(match entry {
        Ok(ty) => Ok(ty),
        Err(e) => Err(ReadError { message: e.message().to_string(), offset: e.offset() }),
    })).collect())
}

/// The entries of the table section, as `wasmparser::SectionLimited` reads them.
#[verifier::external_body]
pub(crate) fn tables<'a>(payload: &wasmparser::Payload<'a>) -> (entries: Option<
    Vec<Read<RawTableEntry<'a>>>,
>)
    ensures
        match payload_view(*payload).content {
            ContentView::TableSection(found) => entries matches Some(items) && read_views(items@)
                == found,
            _ => entries is None,
        },
{
    let wasmparser::Payload::TableSection(section) = payload else {
        return None;
    };
    Some(section.clone().into_iter().map_while(|entry| Some(match entry {
        Ok(t) => Ok(RawTableEntry {
            ty: RawTable {
                element: t.ty.element_type, minimum: t.ty.initial, maximum: t.ty.maximum },
            init: match t.init { TableInit::RefNull => None, TableInit::Expr(e) => Some(e) },
        }),
        Err(e) => Err(ReadError { message: e.message().to_string(), offset: e.offset() }),
    })).collect())
}

/// The entries of the memory section, as `wasmparser::SectionLimited` reads them.
#[verifier::external_body]
pub(crate) fn memories<'a>(payload: &wasmparser::Payload<'a>) -> (entries: Option<
    Vec<Read<MemoryPlan>>,
>)
    ensures
        match payload_view(*payload).content {
            ContentView::MemorySection(found) => entries matches Some(items) && read_views(items@)
                == found,
            _ => entries is None,
        },
{
    let wasmparser::Payload::MemorySection(section) = payload else {
        return None;
    };
    Some(section.clone().into_iter().map_while(|entry| Some(match entry {
        Ok(m) => Ok(MemoryPlan {
            memory64: m.memory64, shared: m.shared, minimum: m.initial, maximum: m.maximum }),
        Err(e) => Err(ReadError { message: e.message().to_string(), offset: e.offset() }),
    })).collect())
}

/// The entries of the global section, as `wasmparser::SectionLimited` reads them.
#[verifier::external_body]
pub(crate) fn globals<'a>(payload: &wasmparser::Payload<'a>) -> (entries: Option<
    Vec<Read<RawGlobalEntry<'a>>>,
>)
    ensures
        match payload_view(*payload).content {
            ContentView::GlobalSection(found) => entries matches Some(items) && read_views(items@)
                == found,
            _ => entries is None,
        },
{
    let wasmparser::Payload::GlobalSection(section) = payload else {
        return None;
    };
    Some(section.clone().into_iter().map_while(|entry| Some(match entry {
        Ok(g) => Ok(RawGlobalEntry {
            ty: RawGlobal { content: g.ty.content_type, mutable: g.ty.mutable },
            init: g.init_expr,
        }),
        Err(e) => Err(ReadError { message: e.message().to_string(), offset: e.offset() }),
    })).collect())
}

/// The entries of the export section, as `wasmparser::SectionLimited` reads them.
#[verifier::external_body]
pub(crate) fn exports<'a>(payload: &wasmparser::Payload<'a>) -> (entries: Option<
    Vec<Read<ExportEntry<'a>>>,
>)
    ensures
        match payload_view(*payload).content {
            ContentView::ExportSection(found) => entries matches Some(items) && read_views(items@)
                == found,
            _ => entries is None,
        },
{
    let wasmparser::Payload::ExportSection(section) = payload else {
        return None;
    };
    Some(section.clone().into_iter().map_while(|entry| Some(match entry {
        Ok(x) => Ok(ExportEntry { name: x.name, index: x.index, kind: match x.kind {
            ExternalKind::Func => ExportKind::Func, ExternalKind::Table => ExportKind::Table,
            ExternalKind::Memory => ExportKind::Memory, ExternalKind::Global => ExportKind::Global,
            ExternalKind::Tag => ExportKind::Tag,
        } }),
        Err(e) => Err(ReadError { message: e.message().to_string(), offset: e.offset() }),
    })).collect())
}

/// The entries of the element section, as `wasmparser::SectionLimited` reads
/// them.
#[verifier::external_body]
pub(crate) fn elements<'a>(payload: &wasmparser::Payload<'a>) -> (entries: Option<
    Vec<Read<RawElement<'a>>>,
>)
    ensures
        match payload_view(*payload).content {
            ContentView::ElementSection(found) => entries matches Some(items) && read_views(items@)
                == found,
            _ => entries is None,
        },
{
    let Payload::ElementSection(section) = payload else { return None };
    Some(section.clone().into_iter().map_while(|entry| Some(match entry {
        Ok(x) => Ok(RawElement {
            place: match x.kind {
                ElementKind::Passive => RawPlace::Passive,
                ElementKind::Declared => RawPlace::Declared,
                ElementKind::Active { table_index, offset_expr } => RawPlace::Active {
                    table_index, offset: offset_expr } },
            items: match x.items {
                ElementItems::Functions(f) => RawItems::Functions(f),
                ElementItems::Expressions(_, e) => RawItems::Expressions(e) },
        }),
        Err(e) => Err(ReadError { message: e.message().to_string(), offset: e.offset() }),
    })).collect())
}

/// The bytes of the segments of the data section, as
/// `wasmparser::SectionLimited` reads them.
#[verifier::external_body]
pub(crate) fn data_segments<'a>(payload: &wasmparser::Payload<'a>) -> (entries: Option<
    Vec<Read<&'a [u8]>>,
>)
    ensures
        match payload_view(*payload).content {
            ContentView::DataSection(found) => entries matches Some(items) && read_views(items@)
                == found,
            _ => entries is None,
        },
{
    let wasmparser::Payload::DataSection(section) = payload else {
        return None;
    };
    Some(section.clone().into_iter().map_while(|entry| Some(match entry {
        Ok(segment) => Ok(segment.data),
        Err(e) => Err(ReadError { message: e.message().to_string(), offset: e.offset() }),
    })).collect())
}

/// The functions that a section of function numbers lists.
pub uninterp spec fn functions_of(section: wasmparser::SectionLimited<'_, u32>) -> Seq<
    Result<u32, ReadErrorView>,
>;

/// The functions of an element segment, as `wasmparser::SectionLimited` reads
/// them.
#[verifier::external_body]
pub(crate) fn function_items<'a>(section: &wasmparser::SectionLimited<'a, u32>) -> (items: Vec<
    Read<u32>,
>)
    ensures
        read_views(items@) == functions_of(*section),
{
    section.clone().into_iter().map_while(|item| Some(match item {
        Ok(func) => Ok(func),
        Err(e) => Err(ReadError { message: e.message().to_string(), offset: e.offset() }),
    })).collect()
}

/// What constant expressions start with.
pub open spec fn const_views(expressions: Seq<Read<wasmparser::ConstExpr<'_>>>) -> Seq<
    Result<ConstOperatorView, ReadErrorView>,
> {
    Seq::new(
        expressions.len(),
        |i: int|
            match expressions[i] {
                Ok(expression) => const_view(expression),
                Err(error) => Err(error@),
            },
    )
}

/// What the expressions of a section of expressions start with.
pub uninterp spec fn expressions_of(
    section: wasmparser::SectionLimited<'_, wasmparser::ConstExpr<'_>>,
) -> Seq<Result<ConstOperatorView, ReadErrorView>>;

/// The expressions of an element segment, as `wasmparser::SectionLimited` reads
/// them.
#[verifier::external_body]
pub(crate) fn expression_items<'a>(
    section: &wasmparser::SectionLimited<'a, wasmparser::ConstExpr<'a>>,
) -> (items: Vec<Read<wasmparser::ConstExpr<'a>>>)
    ensures
        const_views(items@) == expressions_of(*section),
{
    section.clone().into_iter().map_while(|item| Some(match item {
        Ok(expression) => Ok(expression),
        Err(e) => Err(ReadError { message: e.message().to_string(), offset: e.offset() }),
    })).collect()
}

/// The names that a name map lists.
pub uninterp spec fn names_of(
    section: wasmparser::SectionLimited<'_, wasmparser::Naming<'_>>,
) -> Seq<Result<NameView, ReadErrorView>>;

/// The names in a name map, as `wasmparser::SectionLimited` reads them.
#[verifier::external_body]
pub(crate) fn name_items<'a>(
    section: &wasmparser::SectionLimited<'a, wasmparser::Naming<'a>>,
) -> (items: Vec<Read<NameEntry<'a>>>)
    ensures
        read_views(items@) == names_of(*section),
{
    section.clone().into_iter().map_while(|item| Some(match item {
        Ok(n) => Ok(NameEntry { index: n.index, name: n.name }),
        Err(e) => Err(ReadError { message: e.message().to_string(), offset: e.offset() }),
    })).collect()
}

/// The names that an indirect name map lists.
pub uninterp spec fn local_names_of(
    section: wasmparser::SectionLimited<'_, wasmparser::IndirectNaming<'_>>,
) -> Seq<Result<LocalNamesView, ReadErrorView>>;

/// The name maps in an indirect name map, as `wasmparser::SectionLimited` reads
/// them.
#[verifier::external_body]
pub(crate) fn local_name_items<'a>(
    section: &wasmparser::SectionLimited<'a, wasmparser::IndirectNaming<'a>>,
) -> (items: Vec<Read<RawLocalNames<'a>>>)
    ensures
        read_views(items@) == local_names_of(*section),
{
    section.clone().into_iter().map_while(|item| Some(match item {
        Ok(n) => Ok(RawLocalNames { index: n.index, names: n.names }),
        Err(e) => Err(ReadError { message: e.message().to_string(), offset: e.offset() }),
    })).collect()
}

/// The parts of the name section that `data` is, when it starts at `offset`.
pub uninterp spec fn name_subsections(data: Seq<u8>, offset: usize) -> Seq<
    Result<NameSubsectionView, ReadErrorView>,
>;

/// `wasmparser::NameSectionReader`: the parts of a name section. A part that
/// cannot be read is an error in its place.
#[verifier::external_body]
pub(crate) fn name_parts<'a>(data: &'a [u8], offset: usize) -> (parts: Vec<Read<RawNames<'a>>>)
    requires
        offset + data@.len() <= usize::MAX,
    ensures
        read_views(parts@) == name_subsections(data@, offset),
{
    wasmparser::NameSectionReader::new(data, offset).map_while(|part| Some(match part {
        Ok(Name::Module { name, .. }) => Ok(RawNames::Module(name)),
        Ok(Name::Function(names)) => Ok(RawNames::Function(names)),
        Ok(Name::Local(names)) => Ok(RawNames::Local(names)),
        Ok(Name::Global(names)) => Ok(RawNames::Global(names)),
        Ok(_) => Ok(RawNames::Other),
        Err(e) => Err(ReadError { message: e.message().to_string(), offset: e.offset() }),
    })).collect()
}

} // verus!

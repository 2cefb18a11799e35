//! A module under translation: the entities that it declares, with the
//! numbers that they get.
use std::collections::{BTreeMap, HashMap};
use vstd::prelude::*;

use super::index::{
    index_fits, FuncIndex, FuncRefIndex, GlobalIndex, MemoryIndex, SignatureIndex, TableIndex,
};
use super::maps::{FunctionMap, GlobalInitMap, GlobalMap, InitialValueMap, TableMap, TypeMap};
use super::text::same_text;
use super::types::{GlobalPlan, MemoryPlan, TablePlan};

verus! {

/// A type of the module.
#[derive(Clone, Copy, Debug, PartialEq, Eq, Structural)]
pub enum ModuleType {
    /// A function type, as its interned signature.
    Function(SignatureIndex),
}

impl ModuleType {
    /// The signature of a function type.
    pub fn unwrap_function(&self) -> (signature: SignatureIndex)
        ensures
            *self == ModuleType::Function(signature),
    {
        match self {
            ModuleType::Function(signature) => *signature,
        }
    }
}

/// A function of the module.
#[derive(Clone, Copy, Debug, PartialEq, Eq, Structural)]
pub struct FunctionType {
    /// Its interned signature.
    pub signature: SignatureIndex,
    /// Its number among the functions that escape the module, or the reserved
    /// value while it does not escape.
    pub func_ref: FuncRefIndex,
}

impl FunctionType {
    /// Whether the function escapes the module.
    pub open spec fn escapes(self) -> bool {
        self.func_ref != FuncRefIndex::reserved()
    }

    /// Whether the function escapes the module.
    pub fn is_escaping(&self) -> (escaping: bool)
        ensures
            escaping == self.escapes(),
    {
        !self.func_ref.is_reserved_value()
    }
}

/// The type of an entity.
#[derive(Clone, Copy, Debug, PartialEq, Eq, Structural)]
pub enum EntityType {
    Function(SignatureIndex),
    Table(TablePlan),
    Memory(MemoryPlan),
    Global(GlobalPlan),
    /// A tag, of the type with this number.
    Tag(u32),
}

/// An entity of the module.
#[derive(Clone, Copy, Debug, PartialEq, Eq, Structural)]
pub enum EntityIndex {
    Function(FuncIndex),
    Table(TableIndex),
    Memory(MemoryIndex),
    Global(GlobalIndex),
}

/// A step that is taken before the module can run.
#[derive(Debug)]
pub enum Initializer {
    /// Something is imported.
    Import {
        /// The module to import from.
        name: String,
        /// The name to import.
        field: String,
        /// The entity that the import becomes.
        index: EntityIndex,
    },
}

/// What an [`Initializer`] says.
pub struct InitializerView {
    pub name: Seq<char>,
    pub field: Seq<char>,
    pub index: EntityIndex,
}

impl View for Initializer {
    type V = InitializerView;

    open spec fn view(&self) -> InitializerView {
        match self {
            Initializer::Import { name, field, index } => InitializerView {
                name: name@,
                field: field@,
                index: *index,
            },
        }
    }
}

/// Something that the module exports.
#[derive(Debug)]
pub struct Exported {
    /// The name that it is exported under.
    pub name: String,
    /// The entity.
    pub entity: EntityIndex,
}

impl View for Exported {
    type V = (Seq<char>, EntityIndex);

    open spec fn view(&self) -> (Seq<char>, EntityIndex) {
        (self.name@, self.entity)
    }
}

/// What the value of a global starts as.
#[derive(Clone, Copy, Debug, PartialEq, Eq, Structural)]
pub enum GlobalInit {
    I32Const(i32),
    I64Const(i64),
    /// A 32-bit float, as its bits.
    F32Const(u32),
    /// A 64-bit float, as its bits.
    F64Const(u64),
    V128Const(u128),
    /// The value of another global.
    GetGlobal(GlobalIndex),
}

/// What the elements of a table start as.
#[derive(Debug)]
pub enum TableInitialValue {
    /// They are null, but for those that are known already.
    Null {
        /// The elements that are known, from the first one on.
        precomputed: Vec<FuncIndex>,
    },
    /// They refer to a function.
    FuncRef(FuncIndex),
}

/// What a [`TableInitialValue`] says.
pub enum InitialValueView {
    Null { precomputed: Seq<FuncIndex> },
    FuncRef(FuncIndex),
}

impl View for TableInitialValue {
    type V = InitialValueView;

    open spec fn view(&self) -> InitialValueView {
        match self {
            TableInitialValue::Null { precomputed } => InitialValueView::Null {
                precomputed: precomputed@,
            },
            TableInitialValue::FuncRef(func) => InitialValueView::FuncRef(*func),
        }
    }
}

/// Elements that are written to a table when the module is instantiated.
#[derive(Debug)]
pub struct TableSegment {
    /// The table.
    pub table_index: TableIndex,
    /// The global whose value is added to the offset, if there is one.
    pub base: Option<GlobalIndex>,
    /// Where in the table to start.
    pub offset: u32,
    /// The elements.
    pub elements: Vec<FuncIndex>,
}

/// What a [`TableSegment`] says.
pub struct SegmentView {
    pub table_index: TableIndex,
    pub base: Option<GlobalIndex>,
    pub offset: u32,
    pub elements: Seq<FuncIndex>,
}

impl View for TableSegment {
    type V = SegmentView;

    open spec fn view(&self) -> SegmentView {
        SegmentView {
            table_index: self.table_index,
            base: self.base,
            offset: self.offset,
            elements: self.elements@,
        }
    }
}

/// How the tables of the module are filled.
#[derive(Debug)]
pub struct TableInitialization {
    /// What the elements of each table of the module start as.
    pub initial_values: InitialValueMap,
    /// What is written to the tables then, in this order.
    pub segments: Vec<TableSegment>,
}

/// Names that the module gives to its entities.
#[derive(Debug)]
pub struct NameSection {
    /// The name of the module.
    pub module_name: Option<String>,
    /// The names of functions.
    pub func_names: HashMap<u32, String>,
    /// The names of the locals of functions.
    pub locals_names: HashMap<u32, HashMap<u32, String>>,
    /// The names of globals.
    pub globals_names: HashMap<u32, String>,
}

/// The texts of a map to strings.
pub open spec fn texts(map: Map<u32, String>) -> Map<u32, Seq<char>> {
    map.map_values(|name: String| name@)
}

/// What a [`NameSection`] says.
pub struct NamesView {
    pub module_name: Option<Seq<char>>,
    pub func_names: Map<u32, Seq<char>>,
    pub locals_names: Map<u32, Map<u32, Seq<char>>>,
    pub globals_names: Map<u32, Seq<char>>,
}

impl View for NameSection {
    type V = NamesView;

    open spec fn view(&self) -> NamesView {
        NamesView {
            module_name: match self.module_name {
                Some(name) => Some(name@),
                None => None,
            },
            func_names: texts(self.func_names@),
            locals_names: self.locals_names@.map_values(
                |names: HashMap<u32, String>| texts(names@),
            ),
            globals_names: texts(self.globals_names@),
        }
    }
}

/// A module under translation.
#[derive(Debug)]
pub struct Module {
    /// What is done before the module can run, in this order.
    pub initializers: Vec<Initializer>,
    /// What the module exports, in the order of the first export of each name.
    pub exports: Vec<Exported>,
    /// The function that is called when the module is instantiated.
    pub start_func: Option<FuncIndex>,
    /// How tables are filled.
    pub table_initialization: TableInitialization,
    /// The elements of the segments that are copied on demand.
    pub passive_elements: Vec<Vec<FuncIndex>>,
    /// Where in `passive_elements` a segment is, by its number.
    pub passive_elements_map: BTreeMap<u32, usize>,
    /// The types.
    pub types: TypeMap,
    /// The number of functions that are imported. They come first.
    pub num_imported_funcs: usize,
    /// The number of tables that are imported. They come first.
    pub num_imported_tables: usize,
    /// The number of memories that are imported.
    pub num_imported_memories: usize,
    /// The number of globals that are imported. They come first.
    pub num_imported_globals: usize,
    /// The number of functions that escape the module.
    pub num_escaped_funcs: usize,
    /// The functions.
    pub functions: FunctionMap,
    /// The tables.
    pub tables: TableMap,
    /// The globals.
    pub globals: GlobalMap,
    /// What the globals that are not imported start as.
    pub global_initializers: GlobalInitMap,
    /// The names of entities.
    pub name_section: NameSection,
}

/// What a [`Module`] says.
pub struct ModuleView {
    pub initializers: Seq<InitializerView>,
    pub exports: Seq<(Seq<char>, EntityIndex)>,
    pub start_func: Option<FuncIndex>,
    pub initial_values: Seq<InitialValueView>,
    pub segments: Seq<SegmentView>,
    pub passive_elements: Seq<Seq<FuncIndex>>,
    pub passive_elements_map: Map<u32, usize>,
    pub types: Seq<ModuleType>,
    pub num_imported_funcs: nat,
    pub num_imported_tables: nat,
    pub num_imported_memories: nat,
    pub num_imported_globals: nat,
    pub num_escaped_funcs: nat,
    pub functions: Seq<FunctionType>,
    pub tables: Seq<TablePlan>,
    pub globals: Seq<GlobalPlan>,
    pub global_initializers: Seq<GlobalInit>,
    pub names: NamesView,
}

/// What the items of a sequence say.
pub open spec fn views<T: View>(items: Seq<T>) -> Seq<T::V> {
    Seq::new(items.len(), |i: int| items[i]@)
}

impl View for Module {
    type V = ModuleView;

    open spec fn view(&self) -> ModuleView {
        ModuleView {
            initializers: views(self.initializers@),
            exports: views(self.exports@),
            start_func: self.start_func,
            initial_values: self.table_initialization.initial_values@,
            segments: views(self.table_initialization.segments@),
            passive_elements: views(self.passive_elements@),
            passive_elements_map: self.passive_elements_map@,
            types: self.types@,
            num_imported_funcs: self.num_imported_funcs as nat,
            num_imported_tables: self.num_imported_tables as nat,
            num_imported_memories: self.num_imported_memories as nat,
            num_imported_globals: self.num_imported_globals as nat,
            num_escaped_funcs: self.num_escaped_funcs as nat,
            functions: self.functions@,
            tables: self.tables@,
            globals: self.globals@,
            global_initializers: self.global_initializers@,
            names: self.name_section@,
        }
    }
}

/// The number of functions that escape.
pub open spec fn escaped_count(functions: Seq<FunctionType>) -> nat
    decreases functions.len(),
{
    if functions.len() == 0 {
        0
    } else {
        escaped_count(functions.drop_last()) + (if functions.last().escapes() {
            1nat
        } else {
            0nat
        })
    }
}

/// Functions that escape are numbered from zero on, each with a number of its own.
pub open spec fn escapes_are_numbered(functions: Seq<FunctionType>, n: nat) -> bool {
    &&& escaped_count(functions) == n
    &&& forall|i: int|
        0 <= i < functions.len() && (#[trigger] functions[i]).escapes() ==> functions[i].func_ref.0
            < n
    &&& forall|i: int, j: int|
        0 <= i < j < functions.len() && (#[trigger] functions[i]).escapes() && (
        #[trigger] functions[j]).escapes() ==> functions[i].func_ref != functions[j].func_ref
}

/// No name is exported twice.
pub open spec fn names_are_distinct(exports: Seq<(Seq<char>, EntityIndex)>) -> bool {
    forall|i: int, j: int|
        0 <= i < j < exports.len() ==> (#[trigger] exports[i]).0 != (#[trigger] exports[j]).0
}

impl ModuleView {
    /// A module that declares nothing.
    pub open spec fn empty() -> ModuleView {
        ModuleView {
            initializers: Seq::empty(),
            exports: Seq::empty(),
            start_func: None,
            initial_values: Seq::empty(),
            segments: Seq::empty(),
            passive_elements: Seq::empty(),
            passive_elements_map: Map::empty(),
            types: Seq::empty(),
            num_imported_funcs: 0,
            num_imported_tables: 0,
            num_imported_memories: 0,
            num_imported_globals: 0,
            num_escaped_funcs: 0,
            functions: Seq::empty(),
            tables: Seq::empty(),
            globals: Seq::empty(),
            global_initializers: Seq::empty(),
            names: NamesView {
                module_name: None,
                func_names: Map::empty(),
                locals_names: Map::empty(),
                globals_names: Map::empty(),
            },
        }
    }

    /// What holds of a module at every step of its translation: entities have
    /// numbers, imports are among them, functions that escape are numbered, no
    /// name is exported twice, names of functions are names of functions that
    /// exist, and the reserved number is the name of no global.
    pub open spec fn wf(self) -> bool {
        &&& self.types.len() <= u32::MAX
        &&& self.functions.len() <= u32::MAX
        &&& self.tables.len() <= u32::MAX
        &&& self.globals.len() <= u32::MAX
        &&& self.num_imported_funcs <= self.functions.len()
        &&& self.num_imported_tables <= self.tables.len()
        &&& self.num_imported_globals <= self.globals.len()
        &&& self.initial_values.len() <= self.tables.len()
        &&& self.global_initializers.len() <= self.globals.len()
        &&& escapes_are_numbered(self.functions, self.num_escaped_funcs)
        &&& names_are_distinct(self.exports)
        &&& forall|f: u32| #[trigger]
            self.names.func_names.contains_key(f) ==> f < self.functions.len()
        &&& forall|f: u32| #[trigger]
            self.names.locals_names.contains_key(f) ==> f < self.functions.len()
        &&& !self.names.globals_names.contains_key(u32::MAX)
    }
}

/// The module with one more function, which does not escape.
pub open spec fn with_function(module: ModuleView, signature: SignatureIndex) -> ModuleView {
    ModuleView {
        functions: module.functions.push(
            FunctionType { signature, func_ref: FuncRefIndex::reserved() },
        ),
        ..module
    }
}

/// The module with `func` among the functions that escape. One that escapes
/// already keeps its number; another one gets the next number.
pub open spec fn with_escaped(module: ModuleView, func: FuncIndex) -> ModuleView {
    let old = module.functions[func.0 as int];
    if old.escapes() {
        module
    } else {
        ModuleView {
            functions: module.functions.update(
                func.0 as int,
                FunctionType {
                    signature: old.signature,
                    func_ref: FuncRefIndex(module.num_escaped_funcs as u32),
                },
            ),
            num_escaped_funcs: module.num_escaped_funcs + 1,
            ..module
        }
    }
}

/// The exports with `name` exported as `entity`. A name that is exported
/// already keeps its place.
pub open spec fn with_export(
    exports: Seq<(Seq<char>, EntityIndex)>,
    name: Seq<char>,
    entity: EntityIndex,
) -> Seq<(Seq<char>, EntityIndex)>
    decreases exports.len(),
{
    if exports.len() == 0 {
        seq![(name, entity)]
    } else if exports[0].0 == name {
        exports.update(0, (name, entity))
    } else {
        seq![exports[0]] + with_export(exports.skip(1), name, entity)
    }
}

/// The module with one more entity of the type `ty`, and the entity. There is
/// none for a memory, for a tag, or if the numbers are used up.
pub open spec fn with_entity(module: ModuleView, ty: EntityType) -> Option<
    (ModuleView, EntityIndex),
> {
    match ty {
        EntityType::Function(signature) => if index_fits(module.functions.len()) {
            Some(
                (
                    with_function(module, signature),
                    EntityIndex::Function(FuncIndex(module.functions.len() as u32)),
                ),
            )
        } else {
            None
        },
        EntityType::Table(table) => if index_fits(module.tables.len()) {
            Some(
                (
                    ModuleView { tables: module.tables.push(table), ..module },
                    EntityIndex::Table(TableIndex(module.tables.len() as u32)),
                ),
            )
        } else {
            None
        },
        EntityType::Global(global) => if index_fits(module.globals.len()) {
            Some(
                (
                    ModuleView { globals: module.globals.push(global), ..module },
                    EntityIndex::Global(GlobalIndex(module.globals.len() as u32)),
                ),
            )
        } else {
            None
        },
        EntityType::Memory(_) => None,
        EntityType::Tag(_) => None,
    }
}

/// The module with an import of an entity of the type `ty`.
pub open spec fn with_import(
    module: ModuleView,
    name: Seq<char>,
    field: Seq<char>,
    ty: EntityType,
) -> Option<ModuleView> {
    match with_entity(module, ty) {
        Some((module, index)) => Some(
            ModuleView {
                initializers: module.initializers.push(InitializerView { name, field, index }),
                ..module
            },
        ),
        None => None,
    }
}

/// Pushing an item pushes what it says.
pub proof fn lemma_views_push<T: View>(items: Seq<T>, item: T)
    ensures
        views(items.push(item)) == views(items).push(item@),
{
    assert(views(items.push(item)) =~= views(items).push(item@));
}

/// A function that does not escape does not count; and no more functions
/// escape than there are.
proof fn lemma_escaped_count(functions: Seq<FunctionType>, f: int)
    ensures
        escaped_count(functions) <= functions.len(),
        0 <= f < functions.len() && !functions[f].escapes() ==> escaped_count(functions)
            < functions.len(),
    decreases functions.len(),
{
    if functions.len() > 0 {
        lemma_escaped_count(functions.drop_last(), f);
    }
}

/// A function that begins to escape counts for one.
proof fn lemma_escape_counts(functions: Seq<FunctionType>, f: int, function: FunctionType)
    requires
        0 <= f < functions.len(),
        !functions[f].escapes(),
        function.escapes(),
    ensures
        escaped_count(functions.update(f, function)) == escaped_count(functions) + 1,
    decreases functions.len(),
{
    let after = functions.update(f, function);
    if f == functions.len() - 1 {
        assert(after.drop_last() =~= functions.drop_last());
    } else {
        assert(after.drop_last() =~= functions.drop_last().update(f, function));
        lemma_escape_counts(functions.drop_last(), f, function);
    }
}

/// A function that is added keeps the module as it should be.
pub proof fn lemma_with_function_wf(module: ModuleView, signature: SignatureIndex)
    requires
        module.wf(),
        index_fits(module.functions.len()),
    ensures
        with_function(module, signature).wf(),
{
    let after = with_function(module, signature);
    assert(after.functions.drop_last() =~= module.functions);
}

/// While a function does not escape, there is a number left for it.
pub proof fn lemma_number_left(module: ModuleView, func: FuncIndex)
    requires
        module.wf(),
        func.0 < module.functions.len(),
        !module.functions[func.0 as int].escapes(),
    ensures
        index_fits(module.num_escaped_funcs),
{
    lemma_escaped_count(module.functions, func.0 as int);
}

/// Letting a function escape keeps the module as it should be.
pub proof fn lemma_with_escaped_wf(module: ModuleView, func: FuncIndex)
    requires
        module.wf(),
        func.0 < module.functions.len(),
    ensures
        with_escaped(module, func).wf(),
        with_escaped(module, func).functions.len() == module.functions.len(),
{
    let f = func.0 as int;
    if !module.functions[f].escapes() {
        lemma_number_left(module, func);
        let after = with_escaped(module, func);
        lemma_escape_counts(module.functions, f, after.functions[f]);
    }
}

/// Letting a function escape a second time changes nothing: its number is not
/// assigned again.
pub proof fn escaping_is_idempotent(module: ModuleView, func: FuncIndex)
    requires
        module.wf(),
        func.0 < module.functions.len(),
    ensures
        with_escaped(with_escaped(module, func), func) == with_escaped(module, func),
        with_escaped(module, func).functions[func.0 as int].escapes(),
{
    if !module.functions[func.0 as int].escapes() {
        lemma_number_left(module, func);
    }
}

/// Letting one function escape leaves every other function as it is.
pub proof fn escaping_touches_one_function(module: ModuleView, func: FuncIndex, other: FuncIndex)
    requires
        module.wf(),
        func.0 < module.functions.len(),
        other.0 < module.functions.len(),
        other != func,
    ensures
        with_escaped(module, func).functions[other.0 as int]
            == module.functions[other.0 as int],
        with_escaped(module, func).functions[func.0 as int].signature
            == module.functions[func.0 as int].signature,
{
}

/// Where an export ends up: at the first place that has its name, else at the end.
proof fn lemma_with_export_at(
    exports: Seq<(Seq<char>, EntityIndex)>,
    name: Seq<char>,
    entity: EntityIndex,
    at: int,
)
    requires
        0 <= at <= exports.len(),
        forall|i: int| 0 <= i < at ==> (#[trigger] exports[i]).0 != name,
        at < exports.len() ==> exports[at].0 == name,
    ensures
        with_export(exports, name, entity) == (if at < exports.len() {
            exports.update(at, (name, entity))
        } else {
            exports.push((name, entity))
        }),
    decreases exports.len(),
{
    if exports.len() == 0 {
        assert(exports.push((name, entity)) =~= seq![(name, entity)]);
    } else if at > 0 {
        let rest = exports.skip(1);
        assert forall|i: int| 0 <= i < at - 1 implies (#[trigger] rest[i]).0 != name by {
            assert(rest[i] == exports[i + 1]);
        }
        if at < exports.len() {
            assert(rest[at - 1] == exports[at]);
        }
        lemma_with_export_at(rest, name, entity, at - 1);
        if at < exports.len() {
            assert(seq![exports[0]] + rest.update(at - 1, (name, entity)) =~= exports.update(
                at,
                (name, entity),
            ));
        } else {
            assert(seq![exports[0]] + rest.push((name, entity)) =~= exports.push((name, entity)));
        }
    }
}

/// The first place that has `name`, or the end.
proof fn lemma_export_place(exports: Seq<(Seq<char>, EntityIndex)>, name: Seq<char>) -> (at: int)
    ensures
        0 <= at <= exports.len(),
        forall|i: int| 0 <= i < at ==> (#[trigger] exports[i]).0 != name,
        at < exports.len() ==> exports[at].0 == name,
    decreases exports.len(),
{
    if exports.len() == 0 {
        0
    } else {
        let before = lemma_export_place(exports.drop_last(), name);
        assert(forall|i: int|
            0 <= i < exports.len() - 1 ==> exports.drop_last()[i] == #[trigger] exports[i]);
        if before < exports.len() - 1 || exports.last().0 == name {
            before
        } else {
            exports.len() as int
        }
    }
}

/// Where an export goes: to the place that has its name, or to the end.
pub proof fn lemma_with_export_place(
    exports: Seq<(Seq<char>, EntityIndex)>,
    name: Seq<char>,
    entity: EntityIndex,
) -> (at: int)
    requires
        names_are_distinct(exports),
    ensures
        0 <= at <= exports.len(),
        forall|i: int| 0 <= i < exports.len() && i != at ==> (#[trigger] exports[i]).0 != name,
        at < exports.len() ==> exports[at].0 == name,
        with_export(exports, name, entity) == (if at < exports.len() {
            exports.update(at, (name, entity))
        } else {
            exports.push((name, entity))
        }),
{
    let at = lemma_export_place(exports, name);
    lemma_with_export_at(exports, name, entity, at);
    assert forall|i: int| 0 <= i < exports.len() && i != at implies (#[trigger] exports[i]).0
        != name by {
        if i > at {
            assert(exports[at].0 != exports[i].0);
        }
    }
    at
}

/// Exporting under a name gives the name that meaning, and leaves every other
/// name its own; no name becomes exported twice.
pub proof fn exporting_sets_one_name(
    exports: Seq<(Seq<char>, EntityIndex)>,
    name: Seq<char>,
    entity: EntityIndex,
)
    requires
        names_are_distinct(exports),
    ensures
        names_are_distinct(with_export(exports, name, entity)),
        with_export(exports, name, entity).contains((name, entity)),
        forall|other: (Seq<char>, EntityIndex)|
            other.0 != name ==> (#[trigger] with_export(exports, name, entity).contains(other)
                <==> exports.contains(other)),
{
    let at = lemma_export_place(exports, name);
    lemma_with_export_at(exports, name, entity, at);
    let after = with_export(exports, name, entity);
    assert(after[at] == (name, entity));
    assert forall|other: (Seq<char>, EntityIndex)| other.0 != name implies (
    #[trigger] after.contains(other) <==> exports.contains(other)) by {
        if after.contains(other) {
            let i = choose|i: int| 0 <= i < after.len() && after[i] == other;
            assert(exports[i] == other);
        }
        if exports.contains(other) {
            let i = choose|i: int| 0 <= i < exports.len() && exports[i] == other;
            assert(after[i] == other);
        }
    }
}

impl Module {
    /// A module that declares nothing.
    pub fn new() -> (module: Self)
        ensures
            module@ == ModuleView::empty(),
            module@.wf(),
    {
        let module = Module {
            initializers: Vec::new(),
            exports: Vec::new(),
            start_func: None,
            table_initialization: TableInitialization {
                initial_values: InitialValueMap::new(),
                segments: Vec::new(),
            },
            passive_elements: Vec::new(),
            passive_elements_map: BTreeMap::new(),
            types: TypeMap::new(),
            num_imported_funcs: 0,
            num_imported_tables: 0,
            num_imported_memories: 0,
            num_imported_globals: 0,
            num_escaped_funcs: 0,
            functions: FunctionMap::new(),
            tables: TableMap::new(),
            globals: GlobalMap::new(),
            global_initializers: GlobalInitMap::new(),
            name_section: NameSection {
                module_name: None,
                func_names: HashMap::new(),
                locals_names: HashMap::new(),
                globals_names: HashMap::new(),
            },
        };
        proof {
            let empty = ModuleView::empty();
            assert(module@.initializers =~= empty.initializers);
            assert(module@.exports =~= empty.exports);
            assert(module@.initial_values =~= empty.initial_values);
            assert(module@.segments =~= empty.segments);
            assert(module@.passive_elements =~= empty.passive_elements);
            assert(module@.passive_elements_map =~= empty.passive_elements_map);
            assert(module@.types =~= empty.types);
            assert(module@.functions =~= empty.functions);
            assert(module@.names.func_names =~= empty.names.func_names);
            assert(module@.names.locals_names =~= empty.names.locals_names);
            assert(module@.names.globals_names =~= empty.names.globals_names);
        }
        module
    }

    /// Adds a function, which does not escape.
    pub fn push_function(&mut self, signature: SignatureIndex) -> (func: FuncIndex)
        requires
            old(self)@.wf(),
            index_fits(old(self)@.functions.len()),
        ensures
            final(self)@ == with_function(old(self)@, signature),
            final(self)@.wf(),
            func == FuncIndex(old(self)@.functions.len() as u32),
    {
        proof {
            lemma_with_function_wf(self@, signature);
        }
        self.functions.push(FunctionType { signature, func_ref: FuncRefIndex::reserved_value() })
    }

    /// Lets `func` escape, unless it does already.
    pub fn flag_func_escaped(&mut self, func: FuncIndex)
        requires
            old(self)@.wf(),
            func.0 < old(self)@.functions.len(),
        ensures
            final(self)@ == with_escaped(old(self)@, func),
            final(self)@.wf(),
            final(self)@.functions.len() == old(self)@.functions.len(),
    {
        proof {
            lemma_with_escaped_wf(self@, func);
        }
        let ty: FunctionType = self.functions.get(func);
        // A function that was assigned a number keeps it.
        if ty.is_escaping() {
            return;
        }
        proof {
            lemma_number_left(self@, func);
        }
        let index: u32 = self.num_escaped_funcs as u32;
        let flagged = FunctionType {
            signature: ty.signature,
            func_ref: FuncRefIndex::from_u32(index),
        };
        self.functions.set(func, flagged);
        self.num_escaped_funcs = self.num_escaped_funcs + 1;
    }

    /// Whether there is an entity for the type `ty`: it is neither a memory nor
    /// a tag, and the numbers are not used up.
    pub fn has_entity(&self, ty: &EntityType) -> (has: bool)
        ensures
            has == (with_entity(self@, *ty) is Some),
    {
        match ty {
            EntityType::Function(_) => self.functions.len() < u32::MAX as usize,
            EntityType::Table(_) => self.tables.len() < u32::MAX as usize,
            EntityType::Global(_) => self.globals.len() < u32::MAX as usize,
            EntityType::Memory(_) => false,
            EntityType::Tag(_) => false,
        }
    }

    /// Adds an entity of the type `ty`, which is neither a memory nor a tag.
    pub fn push_type(&mut self, ty: EntityType) -> (index: EntityIndex)
        requires
            old(self)@.wf(),
            with_entity(old(self)@, ty) is Some,
        ensures
            with_entity(old(self)@, ty) == Some((final(self)@, index)),
            final(self)@.wf(),
    {
        match ty {
            EntityType::Function(signature) => {
                EntityIndex::Function(self.push_function(signature))
            },
            EntityType::Table(table) => EntityIndex::Table(self.tables.push(table)),
            EntityType::Global(global) => EntityIndex::Global(self.globals.push(global)),
            EntityType::Memory(_) => vstd::pervasive::unreached(),
            EntityType::Tag(_) => vstd::pervasive::unreached(),
        }
    }

    /// Declares a new import with the `module` and `field` names, importing
    /// the `ty` specified.
    pub fn declare_import(&mut self, module: &str, field: &str, ty: EntityType)
        requires
            old(self)@.wf(),
            with_entity(old(self)@, ty) is Some,
        ensures
            with_import(old(self)@, module@, field@, ty) == Some(final(self)@),
            final(self)@.wf(),
    {
        let index = self.push_type(ty);
        let import = Initializer::Import {
            name: module.to_owned(),
            field: field.to_owned(),
            index,
        };
        proof {
            lemma_views_push(self.initializers@, import);
        }
        self.initializers.push(import);
    }

    /// Exports `entity` under `name`.
    pub fn declare_export(&mut self, name: &str, entity: EntityIndex)
        requires
            old(self)@.wf(),
        ensures
            final(self)@ == (ModuleView {
                exports: with_export(old(self)@.exports, name@, entity),
                ..old(self)@
            }),
            final(self)@.wf(),
    {
        let ghost before = self@.exports;
        proof {
            exporting_sets_one_name(before, name@, entity);
        }
        let mut at: usize = 0;
        while at < self.exports.len() && !same_text(self.exports[at].name.as_str(), name)
            invariant
                at <= self.exports@.len(),
                *self == *old(self),
                before == self@.exports,
                forall|i: int| 0 <= i < at ==> (#[trigger] before[i]).0 != name@,
            decreases self.exports@.len() - at,
        {
            assert(before[at as int] == self.exports@[at as int]@);
            at = at + 1;
        }
        if at < self.exports.len() {
            assert(before[at as int] == self.exports@[at as int]@);
        }
        proof {
            lemma_with_export_at(before, name@, entity, at as int);
        }
        let export = Exported { name: name.to_owned(), entity };
        if at < self.exports.len() {
            let ghost items = self.exports@;
            self.exports.set(at, export);
            assert(views(self.exports@) =~= before.update(at as int, (name@, entity)));
        } else {
            proof {
                lemma_views_push(self.exports@, export);
            }
            self.exports.push(export);
        }
    }
}

} // verus!

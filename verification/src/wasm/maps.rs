//! The entities of a module, by their numbers. `cranelift_entity` keeps them,
//! and cannot be seen through here: what it holds has a name, and what is
//! believed of it is stated over that name.
use cranelift_entity::PrimaryMap;
use vstd::prelude::*;

use super::index::{
    index_fits, DefinedGlobalIndex, DefinedTableIndex, FuncIndex, GlobalIndex, TableIndex,
    TypeIndex,
};
use super::module::{FunctionType, GlobalInit, InitialValueView, ModuleType, TableInitialValue};
use super::types::{GlobalPlan, TablePlan};

verus! {

/// The types of a module.
#[verifier::external_body]
#[derive(Debug)]
pub struct TypeMap {
    /// The entries, by their numbers.
    pub entries: PrimaryMap<TypeIndex, ModuleType>,
}

/// The types, from the first on.
pub uninterp spec fn types_in(map: TypeMap) -> Seq<ModuleType>;

impl View for TypeMap {
    type V = Seq<ModuleType>;

    open spec fn view(&self) -> Seq<ModuleType> {
        types_in(*self)
    }
}

impl TypeMap {
    /// `cranelift_entity::PrimaryMap::new`: there are no entries.
    #[verifier::external_body]
    pub(crate) fn new() -> (map: Self)
        ensures
            types_in(map) == Seq::<ModuleType>::empty(),
    {
        TypeMap { entries: PrimaryMap::new() }
    }

    /// `cranelift_entity::PrimaryMap::push`: the entry comes after all others,
    /// and gets the next number.
    #[verifier::external_body]
    pub(crate) fn push(&mut self, entry: ModuleType) -> (index: TypeIndex)
        requires
            index_fits(types_in(*old(self)).len()),
        ensures
            types_in(*final(self)) == types_in(*old(self)).push(entry),
            index == TypeIndex(types_in(*old(self)).len() as u32),
    {
        self.entries.push(entry)
    }

    /// `cranelift_entity::PrimaryMap::len`: the number of entries.
    #[verifier::external_body]
    pub(crate) fn len(&self) -> (n: usize)
        ensures
            n == types_in(*self).len(),
    {
        self.entries.len()
    }

    /// `cranelift_entity::PrimaryMap::index`: the entry with this number.
    #[verifier::external_body]
    pub(crate) fn get(&self, index: TypeIndex) -> (entry: ModuleType)
        requires
            index.0 < types_in(*self).len(),
        ensures
            entry == types_in(*self)[index.0 as int],
    {
        self.entries[index]
    }
}

/// The functions of a module, imports first.
#[verifier::external_body]
#[derive(Debug)]
pub struct FunctionMap {
    /// The entries, by their numbers.
    pub entries: PrimaryMap<FuncIndex, FunctionType>,
}

/// The functions, from the first on.
pub uninterp spec fn functions_in(map: FunctionMap) -> Seq<FunctionType>;

impl View for FunctionMap {
    type V = Seq<FunctionType>;

    open spec fn view(&self) -> Seq<FunctionType> {
        functions_in(*self)
    }
}

impl FunctionMap {
    /// `cranelift_entity::PrimaryMap::new`: there are no entries.
    #[verifier::external_body]
    pub(crate) fn new() -> (map: Self)
        ensures
            functions_in(map) == Seq::<FunctionType>::empty(),
    {
        FunctionMap { entries: PrimaryMap::new() }
    }

    /// `cranelift_entity::PrimaryMap::push`: the entry comes after all others,
    /// and gets the next number.
    #[verifier::external_body]
    pub(crate) fn push(&mut self, entry: FunctionType) -> (index: FuncIndex)
        requires
            index_fits(functions_in(*old(self)).len()),
        ensures
            functions_in(*final(self)) == functions_in(*old(self)).push(entry),
            index == FuncIndex(functions_in(*old(self)).len() as u32),
    {
        self.entries.push(entry)
    }

    /// `cranelift_entity::PrimaryMap::len`: the number of entries.
    #[verifier::external_body]
    pub(crate) fn len(&self) -> (n: usize)
        ensures
            n == functions_in(*self).len(),
    {
        self.entries.len()
    }

    /// `cranelift_entity::PrimaryMap::index`: the entry with this number.
    #[verifier::external_body]
    pub(crate) fn get(&self, index: FuncIndex) -> (entry: FunctionType)
        requires
            index.0 < functions_in(*self).len(),
        ensures
            entry == functions_in(*self)[index.0 as int],
    {
        self.entries[index]
    }

    /// `cranelift_entity::PrimaryMap::index_mut`: the entry with this number is
    /// replaced, and no other.
    #[verifier::external_body]
    pub(crate) fn set(&mut self, index: FuncIndex, entry: FunctionType)
        requires
            index.0 < functions_in(*old(self)).len(),
        ensures
            functions_in(*final(self)) == functions_in(*old(self)).update(index.0 as int, entry),
    {
        self.entries[index] = entry;
    }
}

/// The tables of a module, imports first.
#[verifier::external_body]
#[derive(Debug)]
pub struct TableMap {
    /// The entries, by their numbers.
    pub entries: PrimaryMap<TableIndex, TablePlan>,
}

/// The tables, from the first on.
pub uninterp spec fn tables_in(map: TableMap) -> Seq<TablePlan>;

impl View for TableMap {
    type V = Seq<TablePlan>;

    open spec fn view(&self) -> Seq<TablePlan> {
        tables_in(*self)
    }
}

impl TableMap {
    /// `cranelift_entity::PrimaryMap::new`: there are no entries.
    #[verifier::external_body]
    pub(crate) fn new() -> (map: Self)
        ensures
            tables_in(map) == Seq::<TablePlan>::empty(),
    {
        TableMap { entries: PrimaryMap::new() }
    }

    /// `cranelift_entity::PrimaryMap::push`: the entry comes after all others,
    /// and gets the next number.
    #[verifier::external_body]
    pub(crate) fn push(&mut self, entry: TablePlan) -> (index: TableIndex)
        requires
            index_fits(tables_in(*old(self)).len()),
        ensures
            tables_in(*final(self)) == tables_in(*old(self)).push(entry),
            index == TableIndex(tables_in(*old(self)).len() as u32),
    {
        self.entries.push(entry)
    }

    /// `cranelift_entity::PrimaryMap::len`: the number of entries.
    #[verifier::external_body]
    pub(crate) fn len(&self) -> (n: usize)
        ensures
            n == tables_in(*self).len(),
    {
        self.entries.len()
    }
}

/// The globals of a module, imports first.
#[verifier::external_body]
#[derive(Debug)]
pub struct GlobalMap {
    /// The entries, by their numbers.
    pub entries: PrimaryMap<GlobalIndex, GlobalPlan>,
}

/// The globals, from the first on.
pub uninterp spec fn globals_in(map: GlobalMap) -> Seq<GlobalPlan>;

impl View for GlobalMap {
    type V = Seq<GlobalPlan>;

    open spec fn view(&self) -> Seq<GlobalPlan> {
        globals_in(*self)
    }
}

impl GlobalMap {
    /// `cranelift_entity::PrimaryMap::new`: there are no entries.
    #[verifier::external_body]
    pub(crate) fn new() -> (map: Self)
        ensures
            globals_in(map) == Seq::<GlobalPlan>::empty(),
    {
        GlobalMap { entries: PrimaryMap::new() }
    }

    /// `cranelift_entity::PrimaryMap::push`: the entry comes after all others,
    /// and gets the next number.
    #[verifier::external_body]
    pub(crate) fn push(&mut self, entry: GlobalPlan) -> (index: GlobalIndex)
        requires
            index_fits(globals_in(*old(self)).len()),
        ensures
            globals_in(*final(self)) == globals_in(*old(self)).push(entry),
            index == GlobalIndex(globals_in(*old(self)).len() as u32),
    {
        self.entries.push(entry)
    }

    /// `cranelift_entity::PrimaryMap::len`: the number of entries.
    #[verifier::external_body]
    pub(crate) fn len(&self) -> (n: usize)
        ensures
            n == globals_in(*self).len(),
    {
        self.entries.len()
    }
}

/// What the globals that a module defines start as.
#[verifier::external_body]
#[derive(Debug)]
pub struct GlobalInitMap {
    /// The entries, by their numbers.
    pub entries: PrimaryMap<DefinedGlobalIndex, GlobalInit>,
}

/// What the globals start as, from the first on.
pub uninterp spec fn global_inits_in(map: GlobalInitMap) -> Seq<GlobalInit>;

impl View for GlobalInitMap {
    type V = Seq<GlobalInit>;

    open spec fn view(&self) -> Seq<GlobalInit> {
        global_inits_in(*self)
    }
}

impl GlobalInitMap {
    /// `cranelift_entity::PrimaryMap::new`: there are no entries.
    #[verifier::external_body]
    pub(crate) fn new() -> (map: Self)
        ensures
            global_inits_in(map) == Seq::<GlobalInit>::empty(),
    {
        GlobalInitMap { entries: PrimaryMap::new() }
    }

    /// `cranelift_entity::PrimaryMap::push`: the entry comes after all others,
    /// and gets the next number.
    #[verifier::external_body]
    pub(crate) fn push(&mut self, entry: GlobalInit) -> (index: DefinedGlobalIndex)
        requires
            index_fits(global_inits_in(*old(self)).len()),
        ensures
            global_inits_in(*final(self)) == global_inits_in(*old(self)).push(entry),
            index == DefinedGlobalIndex(global_inits_in(*old(self)).len() as u32),
    {
        self.entries.push(entry)
    }
}

/// What the tables that a module defines start as.
#[verifier::external_body]
#[derive(Debug)]
pub struct InitialValueMap {
    /// The entries, by their numbers.
    pub entries: PrimaryMap<DefinedTableIndex, TableInitialValue>,
}

/// What the tables start as, from the first on.
pub uninterp spec fn initial_values_in(map: InitialValueMap) -> Seq<InitialValueView>;

impl View for InitialValueMap {
    type V = Seq<InitialValueView>;

    open spec fn view(&self) -> Seq<InitialValueView> {
        initial_values_in(*self)
    }
}

impl InitialValueMap {
    /// `cranelift_entity::PrimaryMap::new`: there are no entries.
    #[verifier::external_body]
    pub(crate) fn new() -> (map: Self)
        ensures
            initial_values_in(map) == Seq::<InitialValueView>::empty(),
    {
        InitialValueMap { entries: PrimaryMap::new() }
    }

    /// `cranelift_entity::PrimaryMap::push`: the entry comes after all others,
    /// and gets the next number.
    #[verifier::external_body]
    pub(crate) fn push(&mut self, entry: TableInitialValue) -> (index: DefinedTableIndex)
        requires
            index_fits(initial_values_in(*old(self)).len()),
        ensures
            initial_values_in(*final(self)) == initial_values_in(*old(self)).push(entry@),
            index == DefinedTableIndex(initial_values_in(*old(self)).len() as u32),
    {
        self.entries.push(entry)
    }
}

} // verus!

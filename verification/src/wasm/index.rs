//! Numbers for the entities of a module, a type for each kind of entity.
//!
//! The largest 32-bit number stands for no entity: it is the reserved value.
use cranelift_entity::EntityRef;
use vstd::prelude::*;

verus! {

/// Whether an entity can have the number `n`.
pub open spec fn index_fits(n: nat) -> bool {
    n < u32::MAX
}

/// A type in the index space of a module.
#[derive(Clone, Copy, Debug, PartialEq, Eq, Structural)]
pub struct TypeIndex(pub u32);

impl TypeIndex {
    /// The entity with the number `index`.
    pub fn from_u32(index: u32) -> (entity: Self)
        requires
            index_fits(index as nat),
        ensures
            entity == TypeIndex(index),
    {
        TypeIndex(index)
    }
}

impl EntityRef for TypeIndex {
    fn new(index: usize) -> (entity: Self)
        ensures
            index <= u32::MAX ==> entity == TypeIndex(index as u32),
    {
        TypeIndex(index as u32)
    }

    fn index(self) -> (index: usize)
        ensures
            index == self.0,
    {
        self.0 as usize
    }
}

/// A function in the index space of a module, imports first.
#[derive(Clone, Copy, Debug, PartialEq, Eq, Structural)]
pub struct FuncIndex(pub u32);

impl FuncIndex {
    /// The entity with the number `index`.
    pub fn from_u32(index: u32) -> (entity: Self)
        requires
            index_fits(index as nat),
        ensures
            entity == FuncIndex(index),
    {
        FuncIndex(index)
    }

    /// The reserved value.
    pub open spec fn reserved() -> Self {
        FuncIndex(u32::MAX)
    }

    /// The value that stands for no entity.
    pub fn reserved_value() -> (entity: Self)
        ensures
            entity == Self::reserved(),
    {
        FuncIndex(u32::MAX)
    }

    /// Whether this is the value that stands for no entity.
    pub fn is_reserved_value(&self) -> (reserved: bool)
        ensures
            reserved == (*self == Self::reserved()),
    {
        self.0 == u32::MAX
    }
}

impl EntityRef for FuncIndex {
    fn new(index: usize) -> (entity: Self)
        ensures
            index <= u32::MAX ==> entity == FuncIndex(index as u32),
    {
        FuncIndex(index as u32)
    }

    fn index(self) -> (index: usize)
        ensures
            index == self.0,
    {
        self.0 as usize
    }
}

/// A table in the index space of a module, imports first.
#[derive(Clone, Copy, Debug, PartialEq, Eq, Structural)]
pub struct TableIndex(pub u32);

impl TableIndex {
    /// The entity with the number `index`.
    pub fn from_u32(index: u32) -> (entity: Self)
        requires
            index_fits(index as nat),
        ensures
            entity == TableIndex(index),
    {
        TableIndex(index)
    }
}

impl EntityRef for TableIndex {
    fn new(index: usize) -> (entity: Self)
        ensures
            index <= u32::MAX ==> entity == TableIndex(index as u32),
    {
        TableIndex(index as u32)
    }

    fn index(self) -> (index: usize)
        ensures
            index == self.0,
    {
        self.0 as usize
    }
}

/// A memory in the index space of a module, imports first.
#[derive(Clone, Copy, Debug, PartialEq, Eq, Structural)]
pub struct MemoryIndex(pub u32);

impl MemoryIndex {
    /// The entity with the number `index`.
    pub fn from_u32(index: u32) -> (entity: Self)
        requires
            index_fits(index as nat),
        ensures
            entity == MemoryIndex(index),
    {
        MemoryIndex(index)
    }
}

/// A global in the index space of a module, imports first.
#[derive(Clone, Copy, Debug, PartialEq, Eq, Structural)]
pub struct GlobalIndex(pub u32);

impl GlobalIndex {
    /// The entity with the number `index`.
    pub fn from_u32(index: u32) -> (entity: Self)
        requires
            index_fits(index as nat),
        ensures
            entity == GlobalIndex(index),
    {
        GlobalIndex(index)
    }
}

impl EntityRef for GlobalIndex {
    fn new(index: usize) -> (entity: Self)
        ensures
            index <= u32::MAX ==> entity == GlobalIndex(index as u32),
    {
        GlobalIndex(index as u32)
    }

    fn index(self) -> (index: usize)
        ensures
            index == self.0,
    {
        self.0 as usize
    }
}

/// A function among those that the module defines itself.
#[derive(Clone, Copy, Debug, PartialEq, Eq, Structural)]
pub struct DefinedFuncIndex(pub u32);

impl EntityRef for DefinedFuncIndex {
    fn new(index: usize) -> (entity: Self)
        ensures
            index <= u32::MAX ==> entity == DefinedFuncIndex(index as u32),
    {
        DefinedFuncIndex(index as u32)
    }

    fn index(self) -> (index: usize)
        ensures
            index == self.0,
    {
        self.0 as usize
    }
}

/// A table among those that the module defines itself.
#[derive(Clone, Copy, Debug, PartialEq, Eq, Structural)]
pub struct DefinedTableIndex(pub u32);

impl EntityRef for DefinedTableIndex {
    fn new(index: usize) -> (entity: Self)
        ensures
            index <= u32::MAX ==> entity == DefinedTableIndex(index as u32),
    {
        DefinedTableIndex(index as u32)
    }

    fn index(self) -> (index: usize)
        ensures
            index == self.0,
    {
        self.0 as usize
    }
}

/// A global among those that the module defines itself.
#[derive(Clone, Copy, Debug, PartialEq, Eq, Structural)]
pub struct DefinedGlobalIndex(pub u32);

impl EntityRef for DefinedGlobalIndex {
    fn new(index: usize) -> (entity: Self)
        ensures
            index <= u32::MAX ==> entity == DefinedGlobalIndex(index as u32),
    {
        DefinedGlobalIndex(index as u32)
    }

    fn index(self) -> (index: usize)
        ensures
            index == self.0,
    {
        self.0 as usize
    }
}

/// An element segment of a module.
#[derive(Clone, Copy, Debug, PartialEq, Eq, Structural)]
pub struct ElemIndex(pub u32);

impl ElemIndex {
    /// The entity with the number `index`.
    pub fn from_u32(index: u32) -> (entity: Self)
        requires
            index_fits(index as nat),
        ensures
            entity == ElemIndex(index),
    {
        ElemIndex(index)
    }
}

/// A function signature among the interned ones.
#[derive(Clone, Copy, Debug, PartialEq, Eq, Structural)]
pub struct SignatureIndex(pub u32);

impl SignatureIndex {
    /// The entity with the number `index`.
    pub fn from_u32(index: u32) -> (entity: Self)
        requires
            index_fits(index as nat),
        ensures
            entity == SignatureIndex(index),
    {
        SignatureIndex(index)
    }
}

/// A function among those that escape the module.
#[derive(Clone, Copy, Debug, PartialEq, Eq, Structural)]
pub struct FuncRefIndex(pub u32);

impl FuncRefIndex {
    /// The entity with the number `index`.
    pub fn from_u32(index: u32) -> (entity: Self)
        requires
            index_fits(index as nat),
        ensures
            entity == FuncRefIndex(index),
    {
        FuncRefIndex(index)
    }

    /// The reserved value.
    pub open spec fn reserved() -> Self {
        FuncRefIndex(u32::MAX)
    }

    /// The value that stands for no entity.
    pub fn reserved_value() -> (entity: Self)
        ensures
            entity == Self::reserved(),
    {
        FuncRefIndex(u32::MAX)
    }

    /// Whether this is the value that stands for no entity.
    pub fn is_reserved_value(&self) -> (reserved: bool)
        ensures
            reserved == (*self == Self::reserved()),
    {
        self.0 == u32::MAX
    }
}

} // verus!

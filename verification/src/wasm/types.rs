//! Types of WebAssembly values, and the signatures that a translation interns.
use vstd::prelude::*;

use super::index::{index_fits, SignatureIndex};

verus! {

/// The type of a value.
#[derive(Clone, Copy, Debug, PartialEq, Eq, Structural)]
pub enum WasmType {
    I32,
    I64,
    F32,
    F64,
    V128,
    /// A reference.
    Ref(WasmRefType),
}

/// The type of a reference.
#[derive(Clone, Copy, Debug, PartialEq, Eq, Structural)]
pub struct WasmRefType {
    /// Whether the reference can be null.
    pub nullable: bool,
    /// What it refers to.
    pub heap_type: WasmHeapType,
}

/// What a reference refers to.
#[derive(Clone, Copy, Debug, PartialEq, Eq, Structural)]
pub enum WasmHeapType {
    Func,
    Extern,
    Any,
    NoAny,
    NoExtern,
    NoFunc,
    Eq,
    Struct,
    Array,
    I31,
    /// The type with this number in its module.
    Module(u32),
    /// The type with this number in its recursion group.
    RecGroup(u32),
    /// The type with this number among those that the validator knows.
    Id(usize),
}

/// The type of a table.
#[derive(Clone, Copy, Debug, PartialEq, Eq, Structural)]
pub struct TablePlan {
    /// The type of an element.
    pub element: WasmRefType,
    /// The number of elements at the start.
    pub minimum: u32,
    /// The largest number of elements, if there is a limit.
    pub maximum: Option<u32>,
}

/// The type of a memory.
#[derive(Clone, Copy, Debug, PartialEq, Eq, Structural)]
pub struct MemoryPlan {
    /// Whether addresses have 64 bits.
    pub memory64: bool,
    /// Whether the memory is shared.
    pub shared: bool,
    /// The number of pages at the start.
    pub minimum: u64,
    /// The largest number of pages, if there is a limit.
    pub maximum: Option<u64>,
}

/// The type of a global.
#[derive(Clone, Copy, Debug, PartialEq, Eq, Structural)]
pub struct GlobalPlan {
    /// The type of its value.
    pub ty: WasmType,
    /// Whether the value can change.
    pub mutable: bool,
}

/// The type of a function.
#[derive(Debug)]
pub struct WasmFuncType {
    /// The types of its parameters.
    pub params: Vec<WasmType>,
    /// The types of its results.
    pub results: Vec<WasmType>,
}

/// What a [`WasmFuncType`] says.
pub struct FuncTypeView {
    pub params: Seq<WasmType>,
    pub results: Seq<WasmType>,
}

impl View for WasmFuncType {
    type V = FuncTypeView;

    open spec fn view(&self) -> FuncTypeView {
        FuncTypeView { params: self.params@, results: self.results@ }
    }
}

/// What a sequence of function types says.
pub open spec fn func_type_views(types: Seq<WasmFuncType>) -> Seq<FuncTypeView> {
    Seq::new(types.len(), |i: int| types[i]@)
}

/// Whether `a` and `b` hold the same types.
fn same_types(a: &Vec<WasmType>, b: &Vec<WasmType>) -> (same: bool)
    ensures
        same == (a@ == b@),
{
    if a.len() != b.len() {
        return false;
    }
    let mut i: usize = 0;
    while i < a.len()
        invariant
            i <= a@.len(),
            a@.len() == b@.len(),
            a@.take(i as int) == b@.take(i as int),
        decreases a@.len() - i,
    {
        if a[i] != b[i] {
            assert(a@[i as int] != b@[i as int]);
            return false;
        }
        i = i + 1;
        assert(a@.take(i as int) =~= a@.take(i - 1).push(a@[i - 1]));
        assert(b@.take(i as int) =~= b@.take(i - 1).push(b@[i - 1]));
    }
    assert(a@.take(i as int) =~= a@);
    assert(b@.take(i as int) =~= b@);
    true
}

/// The items of `types`.
pub(crate) fn copy_types(types: &Vec<WasmType>) -> (copy: Vec<WasmType>)
    ensures
        copy@ == types@,
{
    let mut copy: Vec<WasmType> = Vec::new();
    let mut i: usize = 0;
    while i < types.len()
        invariant
            i <= types@.len(),
            copy@ == types@.take(i as int),
        decreases types@.len() - i,
    {
        copy.push(types[i]);
        i = i + 1;
        assert(types@.take(i as int) =~= types@.take(i - 1).push(types@[i - 1]));
    }
    assert(types@.take(i as int) =~= types@);
    copy
}

impl WasmFuncType {
    /// Whether both are the same type.
    pub fn same_as(&self, other: &WasmFuncType) -> (same: bool)
        ensures
            same == (self@ == other@),
    {
        same_types(&self.params, &other.params) && same_types(&self.results, &other.results)
    }
}

/// What interning `signature` comes to: the interned signatures, and the
/// number that `signature` has among them.
pub open spec fn intern(interned: Seq<FuncTypeView>, signature: FuncTypeView) -> (
    Seq<FuncTypeView>,
    int,
) {
    if interned.contains(signature) {
        (interned, interned.index_of(signature))
    } else {
        (interned.push(signature), interned.len() as int)
    }
}

/// Interned function signatures, shared by all modules of a translation. No
/// signature is there twice.
#[derive(Debug)]
pub struct ModuleTypesBuilder {
    signatures: Vec<WasmFuncType>,
}

impl View for ModuleTypesBuilder {
    type V = Seq<FuncTypeView>;

    closed spec fn view(&self) -> Seq<FuncTypeView> {
        func_type_views(self.signatures@)
    }
}

impl ModuleTypesBuilder {
    /// No signature is interned twice.
    pub open spec fn wf(&self) -> bool {
        self@.no_duplicates()
    }

    /// Nothing is interned yet.
    pub fn new() -> (builder: Self)
        ensures
            builder.wf(),
            builder@ == Seq::<FuncTypeView>::empty(),
    {
        let builder = ModuleTypesBuilder { signatures: Vec::new() };
        assert(builder@ =~= Seq::<FuncTypeView>::empty());
        builder
    }

    /// The number of interned signatures.
    pub fn len(&self) -> (n: usize)
        ensures
            n == self@.len(),
    {
        self.signatures.len()
    }

    /// The signature with the number `index`, if there is one.
    pub fn get(&self, index: SignatureIndex) -> (signature: Option<&WasmFuncType>)
        ensures
            match signature {
                Some(signature) => index.0 < self@.len() && signature@ == self@[index.0 as int],
                None => index.0 >= self@.len(),
            },
    {
        let i: usize = index.0 as usize;
        if i < self.signatures.len() {
            Some(&self.signatures[i])
        } else {
            None
        }
    }

    /// A copy of the interned signatures.
    pub fn copy(&self) -> (copy: Self)
        ensures
            copy@ == self@,
    {
        let mut signatures: Vec<WasmFuncType> = Vec::new();
        let mut i: usize = 0;
        while i < self.signatures.len()
            invariant
                i <= self.signatures@.len(),
                func_type_views(signatures@) == self@.take(i as int),
            decreases self.signatures@.len() - i,
        {
            let signature = &self.signatures[i];
            let ghost before = func_type_views(signatures@);
            signatures.push(
                WasmFuncType {
                    params: copy_types(&signature.params),
                    results: copy_types(&signature.results),
                },
            );
            assert(func_type_views(signatures@) =~= before.push(signature@));
            i = i + 1;
            assert(self@.take(i as int) =~= self@.take(i - 1).push(self@[i - 1]));
        }
        assert(self@.take(i as int) =~= self@);
        ModuleTypesBuilder { signatures }
    }

    /// Where `signature` is among the interned ones, if it is there.
    fn find(&self, signature: &WasmFuncType) -> (found: Option<usize>)
        requires
            self.wf(),
        ensures
            match found {
                Some(i) => self@.contains(signature@) && i == self@.index_of(signature@),
                None => !self@.contains(signature@),
            },
    {
        let mut i: usize = 0;
        while i < self.signatures.len()
            invariant
                i <= self.signatures@.len(),
                self.wf(),
                forall|k: int| 0 <= k < i ==> self@[k] != signature@,
            decreases self.signatures@.len() - i,
        {
            if self.signatures[i].same_as(signature) {
                assert(self@[i as int] == signature@);
                assert(self@.contains(signature@));
                return Some(i);
            }
            i = i + 1;
        }
        None
    }

    /// Whether there is a number for `signature`: it is interned already, or
    /// the numbers are not used up.
    pub fn has_number_for(&self, signature: &WasmFuncType) -> (has: bool)
        requires
            self.wf(),
        ensures
            has == index_fits(intern(self@, signature@).1 as nat),
    {
        match self.find(signature) {
            Some(i) => i < u32::MAX as usize,
            None => self.signatures.len() < u32::MAX as usize,
        }
    }

    /// Interns `signature`.
    pub fn wasm_func_type(&mut self, signature: WasmFuncType) -> (index: SignatureIndex)
        requires
            old(self).wf(),
            index_fits(intern(old(self)@, signature@).1 as nat),
        ensures
            final(self).wf(),
            (final(self)@, index.0 as int) == intern(old(self)@, signature@),
    {
        match self.find(&signature) {
            Some(i) => SignatureIndex::from_u32(i as u32),
            None => {
                let index: SignatureIndex = SignatureIndex::from_u32(self.signatures.len() as u32);
                self.signatures.push(signature);
                assert(self@ =~= old(self)@.push(signature@));
                index
            },
        }
    }
}

impl Default for ModuleTypesBuilder {
    fn default() -> (builder: Self)
        ensures
            builder.wf(),
            builder@ == Seq::<FuncTypeView>::empty(),
    {
        ModuleTypesBuilder::new()
    }
}

/// Interning a signature a second time gives the same number and adds nothing.
pub proof fn interning_is_idempotent(interned: Seq<FuncTypeView>, signature: FuncTypeView)
    requires
        interned.no_duplicates(),
    ensures
        ({
            let once = intern(interned, signature);
            intern(once.0, signature) == once
        }),
{
    let once = intern(interned, signature);
    if !interned.contains(signature) {
        assert(once.0[once.1] == signature);
        assert(once.0.contains(signature));
        let again = once.0.index_of(signature);
        assert(0 <= again < once.0.len() && once.0[again] == signature);
        if again < interned.len() {
            assert(interned[again] == signature);
        }
    }
}

/// The number that interning gives stands for the signature, and signatures
/// that were interned before keep their numbers.
pub proof fn interning_keeps_numbers(interned: Seq<FuncTypeView>, signature: FuncTypeView)
    requires
        interned.no_duplicates(),
    ensures
        ({
            let (after, index) = intern(interned, signature);
            &&& after.no_duplicates()
            &&& 0 <= index < after.len()
            &&& after[index] == signature
            &&& interned.len() <= after.len()
            &&& forall|i: int| 0 <= i < interned.len() ==> after[i] == interned[i]
        }),
{
    if interned.contains(signature) {
        let i = interned.index_of(signature);
        assert(0 <= i < interned.len() && interned[i] == signature);
    }
}

/// Interning adds the signature, behind all others, if it is not there yet, and
/// nothing else; one that is there keeps the number that it has.
pub proof fn interning_adds_one_signature_at_most(
    interned: Seq<FuncTypeView>,
    signature: FuncTypeView,
)
    requires
        interned.no_duplicates(),
    ensures
        forall|i: int|
            0 <= i < interned.len() && #[trigger] interned[i] == signature ==> intern(
                interned,
                signature,
            ) == (interned, i),
        (forall|i: int| 0 <= i < interned.len() ==> #[trigger] interned[i] != signature) ==> intern(
            interned,
            signature,
        ) == (interned.push(signature), interned.len() as int),
{
    assert forall|i: int| 0 <= i < interned.len() && #[trigger] interned[i] == signature implies
        intern(interned, signature) == (interned, i) by {
        assert(interned.contains(signature));
        let k = interned.index_of(signature);
        assert(0 <= k < interned.len() && interned[k] == signature);
    }
}

} // verus!

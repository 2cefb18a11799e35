//! The function bodies of a module, in the order of the code section.
use cranelift_entity::PrimaryMap;
use vstd::prelude::*;

use super::index::{index_fits, DefinedFuncIndex};
use super::parser::{body_view, func_view};
use super::payload::{BodyView, FuncView};

verus! {

/// Contains function data: byte code and its offset in the module.
pub struct FunctionBodyData<'a> {
    /// The body of the function, containing code and locals.
    pub body: wasmparser::FunctionBody<'a>,
    /// Validator for the function body.
    pub validator: wasmparser::FuncToValidate<wasmparser::ValidatorResources>,
}

/// What a [`FunctionBodyData`] says.
pub struct FunctionBodyView {
    pub body: BodyView,
    pub validator: FuncView,
}

impl<'a> View for FunctionBodyData<'a> {
    type V = FunctionBodyView;

    open spec fn view(&self) -> FunctionBodyView {
        FunctionBodyView { body: body_view(self.body), validator: func_view(self.validator) }
    }
}

/// The function bodies of a module. `cranelift_entity` keeps them, and cannot
/// be seen through here; [`bodies_of`] says what it holds.
#[verifier::external_body]
pub struct FunctionBodies<'a> {
    /// The bodies, by the functions that they belong to.
    pub entries: PrimaryMap<DefinedFuncIndex, FunctionBodyData<'a>>,
}

/// The function bodies, from the first on.
pub uninterp spec fn bodies_of(bodies: FunctionBodies<'_>) -> Seq<FunctionBodyView>;

impl<'a> FunctionBodies<'a> {
    /// `cranelift_entity::PrimaryMap::new`: there are no bodies.
    #[verifier::external_body]
    pub(crate) fn new() -> (bodies: Self)
        ensures
            bodies_of(bodies) == Seq::<FunctionBodyView>::empty(),
    {
        FunctionBodies { entries: PrimaryMap::new() }
    }

    /// `cranelift_entity::PrimaryMap::push`: the body comes after all others,
    /// and the function that it belongs to is the next one.
    #[verifier::external_body]
    pub(crate) fn push(&mut self, body: FunctionBodyData<'a>) -> (func: DefinedFuncIndex)
        requires
            index_fits(bodies_of(*old(self)).len()),
        ensures
            bodies_of(*final(self)) == bodies_of(*old(self)).push(body@),
            func == DefinedFuncIndex(bodies_of(*old(self)).len() as u32),
    {
        self.entries.push(body)
    }
}

} // verus!

//! What a caller should hear about although it is no error.
use vstd::prelude::*;

use super::error::{ErrorView, WasmError};
use super::module::views;

verus! {

/// Something about a module that is worth a message, but no error.
#[derive(Debug)]
pub enum Warning {
    /// The section with the names could not be read to its end.
    NameSection(WasmError),
    /// There is a debug section of an unknown name.
    UnknownDebugSection(String),
}

/// What a [`Warning`] says.
pub enum WarningView {
    NameSection(ErrorView),
    UnknownDebugSection(Seq<char>),
}

impl View for Warning {
    type V = WarningView;

    open spec fn view(&self) -> WarningView {
        match self {
            Warning::NameSection(error) => WarningView::NameSection(error@),
            Warning::UnknownDebugSection(name) => WarningView::UnknownDebugSection(name@),
        }
    }
}

impl Warning {
    /// A copy.
    fn copy(&self) -> (copy: Warning)
        ensures
            copy@ == self@,
    {
        match self {
            Warning::NameSection(error) => Warning::NameSection(error.copy()),
            Warning::UnknownDebugSection(name) => Warning::UnknownDebugSection(name.clone()),
        }
    }
}

/// A copy of some warnings.
pub(crate) fn copy_warnings(warnings: &Vec<Warning>) -> (copy: Vec<Warning>)
    ensures
        views(copy@) == views(warnings@),
{
    let mut copy: Vec<Warning> = Vec::new();
    let mut i: usize = 0;
    while i < warnings.len()
        invariant
            i <= warnings@.len(),
            copy@.len() == i,
            forall|k: int| 0 <= k < i ==> (#[trigger] copy@[k])@ == warnings@[k]@,
        decreases warnings@.len() - i,
    {
        copy.push(warnings[i].copy());
        i = i + 1;
    }
    assert(views(copy@) =~= views(warnings@));
    copy
}

} // verus!

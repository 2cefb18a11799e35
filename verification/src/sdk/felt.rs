//! Field elements and words, as a guest program holds them.
use vstd::prelude::*;

verus! {

/// A field element. Its view is the integer that stands for it.
#[derive(Clone, Copy)]
pub struct Felt {
    value: u64,
}

/// Four field elements.
pub type Word = [Felt; 4];

impl View for Felt {
    type V = u64;

    closed spec fn view(&self) -> u64 {
        self.value
    }
}

/// The integers that stand for a sequence of field elements.
pub open spec fn felt_values(felts: Seq<Felt>) -> Seq<u64> {
    felts.map_values(|f: Felt| f@)
}

impl Felt {
    /// The field element that `value` stands for, taken as it is.
    pub fn from_u64_unchecked(value: u64) -> (felt: Felt)
        ensures
            felt@ == value,
    {
        Felt { value }
    }

    /// The integer that stands for this field element.
    pub fn as_u64(self) -> (value: u64)
        ensures
            value == self@,
    {
        self.value
    }
}

} // verus!

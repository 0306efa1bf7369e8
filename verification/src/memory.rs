//! The machine's two fundamental memory-cell kinds: field-element values and
//! relocatable pointers into the machine's segmented address space.

use vstd::prelude::*;

verus! {

/// A pointer into the machine's segmented memory: a segment index and an
/// offset within that segment.
#[derive(Clone, Copy, Debug, PartialEq, Eq, Structural)]
pub struct Relocatable {
    pub segment_index: usize,
    pub offset: usize,
}

/// A memory cell: either a field-element value or a relocatable pointer.
/// Field elements are modelled as `u128` values.
#[derive(Clone, Copy, Debug, PartialEq, Eq, Structural)]
pub enum MaybeRelocatable {
    Int(u128),
    RelocatableValue(Relocatable),
}

impl Relocatable {
    /// The pointer `count` cells back in the same segment, or `None` when the
    /// offset would become negative.
    pub fn sub_usize(self, count: usize) -> (r: Option<Relocatable>)
        ensures
            self.offset >= count ==> r == Some(
                Relocatable { segment_index: self.segment_index, offset: (self.offset - count) as usize },
            ),
            self.offset < count ==> r is None,
    {
        if self.offset >= count {
            Some(Relocatable { segment_index: self.segment_index, offset: self.offset - count })
        } else {
            None
        }
    }
}

} // verus!

//! A deterministic register/memory virtual machine's memory model: segmented
//! memory, builtin-runner regions, and the allocation pointer.

use vstd::prelude::*;
use crate::errors::MemoryError;
use crate::memory::MaybeRelocatable;
use crate::memory::Relocatable;

verus! {

/// The index of the machine's execution segment, whose top holds the final
/// implicit arguments and the return registers.
pub const EXECUTION_SEGMENT: usize = 1;

/// One memory segment: its cells in offset order (a cell may be unset), and
/// whether its range was marked as accessed by the host's bookkeeping.
#[derive(Clone, Debug, PartialEq, Eq)]
pub struct Segment {
    pub cells: Vec<Option<MaybeRelocatable>>,
    pub accessed: bool,
}

/// A builtin runner: a co-processor region of the machine's memory with its
/// own stack-like segment.
#[derive(Clone, Copy, Debug, PartialEq, Eq, Structural)]
pub struct BuiltinRunner {
    pub segment_index: usize,
}

/// The machine's memory state: segments, the builtin runners in enumeration
/// order, and the allocation pointer into the execution segment.
#[derive(Debug)]
pub struct VirtualMachine {
    pub segments: Vec<Segment>,
    pub builtins: Vec<BuiltinRunner>,
    pub ap: Relocatable,
}

impl VirtualMachine {
    /// The used size of segment `i`: the number of cell slots written.
    pub open spec fn used_size_of(self, i: int) -> nat {
        self.segments@[i].cells@.len()
    }

    /// The cell at offset `off` of segment `seg`, or `None` when outside the
    /// allocated segments or unset.
    pub open spec fn cell_at(self, seg: int, off: int) -> Option<MaybeRelocatable> {
        if 0 <= seg < self.segments@.len() && 0 <= off < self.segments@[seg].cells@.len() {
            self.segments@[seg].cells@[off]
        } else {
            None
        }
    }

    /// The cell at `p`, or `None` when `p` is outside the allocated segments
    /// or the cell is unset.
    pub open spec fn cell(self, p: Relocatable) -> Option<MaybeRelocatable> {
        self.cell_at(p.segment_index as int, p.offset as int)
    }

    /// Every cell in the `size`-cell range starting at offset `off` of
    /// segment `seg` is set.
    pub open spec fn range_set(self, seg: int, off: int, size: int) -> bool {
        forall|j: int| 0 <= j < size ==> #[trigger] self.cell_at(seg, off + j) is Some
    }

    /// A fresh machine with `n_builtins` builtin runners enabled, in
    /// enumeration order: a program segment, an empty execution segment, and
    /// one empty segment per builtin.
    pub fn new(n_builtins: usize) -> (r: VirtualMachine)
        requires
            n_builtins + 2 <= usize::MAX,
        ensures
            r.segments@.len() == n_builtins + 2,
            forall|i: int| 0 <= i < r.segments@.len() ==> #[trigger] r.segments@[i].cells@.len() == 0,
            forall|i: int| 0 <= i < r.segments@.len() ==> !(#[trigger] r.segments@[i].accessed),
            r.builtins@.len() == n_builtins,
            forall|i: int|
                0 <= i < n_builtins ==> #[trigger] r.builtins@[i].segment_index == 2 + i,
            r.ap == (Relocatable { segment_index: EXECUTION_SEGMENT, offset: 0 }),
    {
        let mut segments: Vec<Segment> = Vec::new();
        let mut builtins: Vec<BuiltinRunner> = Vec::new();
        segments.push(Segment { cells: Vec::new(), accessed: false });
        segments.push(Segment { cells: Vec::new(), accessed: false });
        let mut i: usize = 0;
        while i < n_builtins
            invariant
                i <= n_builtins,
                n_builtins + 2 <= usize::MAX,
                segments@.len() == i + 2,
                forall|j: int| 0 <= j < segments@.len() ==> #[trigger] segments@[j].cells@.len() == 0,
                forall|j: int| 0 <= j < segments@.len() ==> !(#[trigger] segments@[j].accessed),
                builtins@.len() == i,
                forall|j: int| 0 <= j < i ==> #[trigger] builtins@[j].segment_index == 2 + j,
            decreases n_builtins - i,
        {
            builtins.push(BuiltinRunner { segment_index: segments.len() });
            segments.push(Segment { cells: Vec::new(), accessed: false });
            i = i + 1;
        }
        VirtualMachine {
            segments,
            builtins,
            ap: Relocatable { segment_index: EXECUTION_SEGMENT, offset: 0 },
        }
    }

    /// The machine's allocation pointer.
    pub fn get_ap(&self) -> (r: Relocatable)
        ensures
            r == self.ap,
    {
        self.ap
    }

    /// Allocates a fresh, empty memory segment and returns the pointer to its
    /// start.
    pub fn add_memory_segment(&mut self) -> (r: Relocatable)
        requires
            old(self).segments@.len() < usize::MAX,
        ensures
            r.segment_index == old(self).segments@.len(),
            r.offset == 0,
            final(self).segments@.len() == old(self).segments@.len() + 1,
            forall|i: int|
                0 <= i < old(self).segments@.len() ==> #[trigger] final(self).segments@[i] == old(
                    self,
                ).segments@[i],
            final(self).segments@.last().cells@.len() == 0,
            !final(self).segments@.last().accessed,
            final(self).builtins@ == old(self).builtins@,
            final(self).ap == old(self).ap,
    {
        let index = self.segments.len();
        self.segments.push(Segment { cells: Vec::new(), accessed: false });
        Relocatable { segment_index: index, offset: 0 }
    }

    /// Appends one cell at the used end of segment `seg`.
    pub fn push_cell(&mut self, seg: usize, value: MaybeRelocatable)
        requires
            seg < old(self).segments@.len(),
            old(self).used_size_of(seg as int) < usize::MAX,
        ensures
            final(self).segments@.len() == old(self).segments@.len(),
            final(self).segments@[seg as int].cells@ == old(self).segments@[seg as int].cells@.push(
                Some(value),
            ),
            final(self).segments@[seg as int].accessed == old(self).segments@[
                seg as int
            ].accessed,
            forall|i: int|
                0 <= i < old(self).segments@.len() && i != seg
                    ==> #[trigger] final(self).segments@[i] == old(self).segments@[i],
            final(self).builtins@ == old(self).builtins@,
            final(self).ap == old(self).ap,
    {
        let mut segment = self.segments.remove(seg);
        segment.cells.push(Some(value));
        self.segments.insert(seg, segment);
        proof {
            assert(self.segments@ =~= old(self).segments@.update(
                seg as int,
                self.segments@[seg as int],
            ));
        }
    }

    /// Writes `data` at `ptr`, which must point at the used end of an
    /// allocated segment; the segment grows by `data.len()` cells.
    pub fn load_data(&mut self, ptr: Relocatable, data: &Vec<MaybeRelocatable>) -> (r: Result<
        (),
        MemoryError,
    >)
        requires
            old(self).used_size_of(ptr.segment_index as int) + data@.len() <= usize::MAX,
        ensures
            r is Ok <==> (ptr.segment_index < old(self).segments@.len() && ptr.offset == old(
                self,
            ).used_size_of(ptr.segment_index as int)),
            r is Err ==> r == Err::<(), MemoryError>(MemoryError::InvalidAddress)
                && final(self).segments@ == old(self).segments@
                && final(self).builtins@ == old(self).builtins@
                && final(self).ap == old(self).ap,
            r is Ok ==> {
                let seg = ptr.segment_index as int;
                &&& final(self).segments@.len() == old(self).segments@.len()
                &&& final(self).segments@[seg].cells@ == old(self).segments@[seg].cells@ + data@.map(
                    |j: int, c: MaybeRelocatable| Some(c),
                )
                &&& final(self).segments@[seg].accessed == old(self).segments@[seg].accessed
                &&& forall|i: int|
                    0 <= i < old(self).segments@.len() && i != seg
                        ==> #[trigger] final(self).segments@[i] == old(self).segments@[i]
                &&& final(self).builtins@ == old(self).builtins@
                &&& final(self).ap == old(self).ap
            },
    {
        if ptr.segment_index >= self.segments.len() {
            return Err(MemoryError::InvalidAddress);
        }
        let mut segment = self.segments.remove(ptr.segment_index);
        if ptr.offset != segment.cells.len() {
            self.segments.insert(ptr.segment_index, segment);
            proof {
                assert(self.segments@ =~= old(self).segments@);
            }
            return Err(MemoryError::InvalidAddress);
        }
        let n = data.len();
        let mut k: usize = 0;
        while k < n
            invariant
                k <= n,
                n == data@.len(),
                ptr.segment_index < old(self).segments@.len(),
                old(self).used_size_of(ptr.segment_index as int) + n <= usize::MAX,
                segment.cells@ == old(self).segments@[ptr.segment_index as int].cells@ + data@.take(
                    k as int,
                ).map(|j: int, c: MaybeRelocatable| Some(c)),
                segment.accessed == old(self).segments@[ptr.segment_index as int].accessed,
            decreases n - k,
        {
            segment.cells.push(Some(data[k]));
            proof {
                assert(data@.take(k + 1).map(|j: int, c: MaybeRelocatable| Some(c)) =~= data@.take(
                    k as int,
                ).map(|j: int, c: MaybeRelocatable| Some(c)).push(Some(data@[k as int])));
            }
            k = k + 1;
        }
        proof {
            assert(data@.take(n as int) =~= data@);
        }
        self.segments.insert(ptr.segment_index, segment);
        proof {
            assert(self.segments@ =~= old(self).segments@.update(
                ptr.segment_index as int,
                self.segments@[ptr.segment_index as int],
            ));
        }
        Ok(())
    }

    /// Reads the cell at `p`, or `None` when it is unset or out of range.
    pub fn get_maybe(&self, p: Relocatable) -> (r: Option<MaybeRelocatable>)
        ensures
            r == self.cell(p),
    {
        if p.segment_index < self.segments.len() && p.offset
            < self.segments[p.segment_index].cells.len() {
            self.segments[p.segment_index].cells[p.offset]
        } else {
            None
        }
    }

    /// Reads the cell at `p` as a relocatable pointer; fails when the cell is
    /// unset or holds a value instead.
    pub fn get_relocatable(&self, p: Relocatable) -> (r: Result<Relocatable, MemoryError>)
        ensures
            match r {
                Ok(q) => self.cell(p) == Some(MaybeRelocatable::RelocatableValue(q)),
                Err(e) => e == MemoryError::ExpectedRelocatable && !(self.cell(
                    p,
                ) matches Some(MaybeRelocatable::RelocatableValue(_))),
            },
    {
        match self.get_maybe(p) {
            Some(MaybeRelocatable::RelocatableValue(q)) => Ok(q),
            _ => Err(MemoryError::ExpectedRelocatable),
        }
    }

    /// The used size of segment `index`, or `None` when the machine has no
    /// such segment.
    pub fn get_segment_used_size(&self, index: usize) -> (r: Option<usize>)
        ensures
            index < self.segments@.len() ==> self.used_size_of(index as int) <= usize::MAX && r
                == Some(self.used_size_of(index as int) as usize),
            index >= self.segments@.len() ==> r is None,
    {
        if index < self.segments.len() {
            Some(self.segments[index].cells.len())
        } else {
            None
        }
    }

    /// Reads the `n` cells just below the allocation pointer: the machine's
    /// return registers.
    pub fn get_return_values(&self, n: usize) -> (r: Result<Vec<MaybeRelocatable>, MemoryError>)
        ensures
            r is Ok <==> (self.ap.offset >= n && self.range_set(
                self.ap.segment_index as int,
                self.ap.offset - n,
                n as int,
            )),
            r matches Ok(values) ==> values@.len() == n && forall|j: int|
                0 <= j < n ==> Some(#[trigger] values@[j]) == self.cell_at(
                    self.ap.segment_index as int,
                    self.ap.offset - n + j,
                ),
            self.ap.offset < n ==> r == Err::<Vec<MaybeRelocatable>, MemoryError>(
                MemoryError::InvalidAddress,
            ),
            self.ap.offset >= n && !self.range_set(
                self.ap.segment_index as int,
                self.ap.offset - n,
                n as int,
            ) ==> r == Err::<Vec<MaybeRelocatable>, MemoryError>(MemoryError::MissingCell),
    {
        if self.ap.offset < n {
            return Err(MemoryError::InvalidAddress);
        }
        let base = self.ap.offset - n;
        let mut values: Vec<MaybeRelocatable> = Vec::new();
        let mut k: usize = 0;
        while k < n
            invariant
                k <= n,
                base == self.ap.offset - n,
                self.ap.offset <= usize::MAX,
                values@.len() == k,
                forall|j: int|
                    0 <= j < k ==> Some(#[trigger] values@[j]) == self.cell_at(
                        self.ap.segment_index as int,
                        base + j,
                    ),
            decreases n - k,
        {
            match self.get_maybe(Relocatable { segment_index: self.ap.segment_index, offset: base + k }) {
                Some(cell) => {
                    values.push(cell);
                },
                None => {
                    proof {
                        assert(self.cell_at(
                            self.ap.segment_index as int,
                            self.ap.offset - n + k,
                        ) is None);
                    }
                    return Err(MemoryError::MissingCell);
                },
            }
            k = k + 1;
        }
        proof {
            assert forall|j: int| 0 <= j < n implies #[trigger] self.cell_at(
                self.ap.segment_index as int,
                self.ap.offset - n + j,
            ) is Some by {
                assert(Some(values@[j]) == self.cell_at(self.ap.segment_index as int, base + j));
            }
        }
        Ok(values)
    }

    /// Marks the `size`-cell range starting at `start` as accessed by the
    /// host's bookkeeping; fails when the range is not inside one segment's
    /// used cells.
    pub fn mark_address_range_as_accessed(&mut self, start: Relocatable, size: usize) -> (r:
        Result<(), MemoryError>)
        ensures
            r is Ok <==> (start.segment_index < old(self).segments@.len() && start.offset + size
                <= old(self).used_size_of(start.segment_index as int)),
            r is Err ==> r == Err::<(), MemoryError>(MemoryError::InvalidAddress)
                && final(self).segments@ == old(self).segments@
                && final(self).builtins@ == old(self).builtins@
                && final(self).ap == old(self).ap,
            r is Ok ==> {
                let seg = start.segment_index as int;
                &&& final(self).segments@.len() == old(self).segments@.len()
                &&& final(self).segments@[seg].cells@ == old(self).segments@[seg].cells@
                &&& final(self).segments@[seg].accessed
                &&& forall|i: int|
                    0 <= i < old(self).segments@.len() && i != seg
                        ==> #[trigger] final(self).segments@[i] == old(self).segments@[i]
                &&& final(self).builtins@ == old(self).builtins@
                &&& final(self).ap == old(self).ap
            },
    {
        if start.segment_index >= self.segments.len() {
            return Err(MemoryError::InvalidAddress);
        }
        let used = self.segments[start.segment_index].cells.len();
        if size > used || start.offset > used - size {
            return Err(MemoryError::InvalidAddress);
        }
        let mut segment = self.segments.remove(start.segment_index);
        segment.accessed = true;
        self.segments.insert(start.segment_index, segment);
        proof {
            assert(self.segments@ =~= old(self).segments@.update(
                start.segment_index as int,
                self.segments@[start.segment_index as int],
            ));
        }
        Ok(())
    }
}

} // verus!

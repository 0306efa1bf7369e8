//! The entry-point execution pipeline: building a machine invocation from a
//! contract class and a call descriptor, assembling its arguments, driving it
//! to completion, validating the final memory layout, and extracting the
//! call's result record.
//!
//! The post-execution validator is the security-critical part: it proves that
//! the machine's final state is consistent with an honest run, i.e. that the
//! untrusted program could not have corrupted the implicit-argument region,
//! forged its syscall interaction, or tampered with any read-only input.

use vstd::prelude::*;
use crate::entry_point::count_matching;
use crate::entry_point::events_view;
use crate::entry_point::messages_view;
use crate::entry_point::CallEntryPoint;
use crate::entry_point::CallExecution;
use crate::entry_point::CallInfo;
use crate::entry_point::ProgramRun;
use crate::entry_point::Retdata;
use crate::errors::EntryPointExecutionError;
use crate::errors::MemoryError;
use crate::errors::PostExecutionError;
use crate::errors::PreExecutionError;
use crate::errors::SecurityCheck;
use crate::errors::VirtualMachineExecutionError;
use crate::machine::BuiltinRunner;
use crate::machine::VirtualMachine;
use crate::machine::EXECUTION_SEGMENT;
use crate::memory::MaybeRelocatable;
use crate::memory::Relocatable;
use crate::state::ClassHash;
use crate::state::ContractAddress;
use crate::state::StateStore;
use crate::state::StateView;
use crate::syscall::apply_syscalls;
use crate::syscall::events_of;
use crate::syscall::lemma_apply_syscalls_bindings;
use crate::syscall::lemma_apply_syscalls_snoc;
use crate::syscall::lemma_events_of_snoc;
use crate::syscall::lemma_messages_of_snoc;
use crate::syscall::lemma_syscall_cells_len;
use crate::syscall::lemma_syscall_cells_snoc;
use crate::syscall::messages_of;
use crate::syscall::syscall_cells;
use crate::syscall::Syscall;
use crate::syscall::SyscallHintProcessor;

verus! {

/// Represents read-only segments dynamically allocated during execution:
/// (start pointer, declared length) pairs.
#[derive(Debug)]
pub struct ReadOnlySegments(pub Vec<(Relocatable, usize)>);

/// Every ledger entry points at the start of an allocated machine segment.
pub open spec fn ledger_wf(ledger: Seq<(Relocatable, usize)>, vm: VirtualMachine) -> bool {
    forall|i: int|
        0 <= i < ledger.len() ==> (#[trigger] ledger[i]).0.segment_index < vm.segments@.len()
            && ledger[i].0.offset == 0
}

/// Every ledgered segment's actually-used size equals its declared length.
pub open spec fn read_only_segments_ok(vm: VirtualMachine, ledger: Seq<(Relocatable, usize)>) -> bool {
    forall|i: int|
        0 <= i < ledger.len() ==> vm.used_size_of((#[trigger] ledger[i]).0.segment_index as int)
            == ledger[i].1
}

impl ReadOnlySegments {
    /// An empty ledger.
    pub fn new() -> (r: ReadOnlySegments)
        ensures
            r.0@.len() == 0,
    {
        ReadOnlySegments(Vec::new())
    }

    /// Allocates a fresh machine segment, registers it in the ledger with its
    /// declared length, and loads the immutable input data into it.
    pub fn allocate(&mut self, vm: &mut VirtualMachine, data: Vec<MaybeRelocatable>) -> (r: Result<
        Relocatable,
        MemoryError,
    >)
        requires
            old(vm).segments@.len() < usize::MAX,
        ensures
            r matches Ok(start) && start == (Relocatable {
                segment_index: old(vm).segments@.len() as usize,
                offset: 0,
            }),
            final(self).0@ == old(self).0@.push(
                (Relocatable { segment_index: old(vm).segments@.len() as usize, offset: 0 }, data@.len() as usize),
            ),
            final(vm).segments@.len() == old(vm).segments@.len() + 1,
            final(vm).segments@.last().cells@ == data@.map(|j: int, c: MaybeRelocatable| Some(c)),
            !final(vm).segments@.last().accessed,
            forall|i: int|
                0 <= i < old(vm).segments@.len() ==> #[trigger] final(vm).segments@[i] == old(
                    vm,
                ).segments@[i],
            final(vm).builtins@ == old(vm).builtins@,
            final(vm).ap == old(vm).ap,
    {
        let segment_start_ptr = vm.add_memory_segment();
        self.0.push((segment_start_ptr, data.len()));
        let loaded = vm.load_data(segment_start_ptr, &data);
        proof {
            assert(loaded is Ok);
            assert(final(vm).segments@.last().cells@ =~= data@.map(
                |j: int, c: MaybeRelocatable| Some(c),
            ));
        }
        Ok(segment_start_ptr)
    }

    /// Checks that every ledgered read-only segment's actually-used size in
    /// the machine equals its declared allocation length; any mismatch is a
    /// security violation.
    pub fn validate(&self, vm: &VirtualMachine) -> (r: Result<(), PostExecutionError>)
        requires
            ledger_wf(self.0@, *vm),
        ensures
            r is Ok <==> read_only_segments_ok(*vm, self.0@),
            r is Err ==> r == Err::<(), PostExecutionError>(
                PostExecutionError::SecurityValidationError(SecurityCheck::ReadOnlySegments),
            ),
    {
        let n = self.0.len();
        let mut i: usize = 0;
        while i < n
            invariant
                i <= n,
                n == self.0@.len(),
                ledger_wf(self.0@, *vm),
                forall|j: int|
                    0 <= j < i ==> vm.used_size_of((#[trigger] self.0@[j]).0.segment_index as int)
                        == self.0@[j].1,
            decreases n - i,
        {
            let (segment_start_ptr, segment_size) = self.0[i];
            let used_size = match vm.get_segment_used_size(segment_start_ptr.segment_index) {
                Some(u) => u,
                None => {
                    proof {
                        assert(false);
                    }
                    return Err(
                        PostExecutionError::SecurityValidationError(
                            SecurityCheck::ReadOnlySegments,
                        ),
                    );
                },
            };
            if segment_size != used_size {
                return Err(
                    PostExecutionError::SecurityValidationError(SecurityCheck::ReadOnlySegments),
                );
            }
            i = i + 1;
        }
        Ok(())
    }

    /// Marks all ledgered read-only segments as accessed: a machine-level
    /// bookkeeping step after validation, not a further validation.
    pub fn mark_as_accessed(self, vm: &mut VirtualMachine) -> (r: Result<(), PostExecutionError>)
        requires
            ledger_wf(self.0@, *old(vm)),
            read_only_segments_ok(*old(vm), self.0@),
        ensures
            r is Ok,
            final(vm).segments@.len() == old(vm).segments@.len(),
            forall|i: int|
                0 <= i < final(vm).segments@.len() ==> (#[trigger] final(vm).segments@[i]).cells@
                    == old(vm).segments@[i].cells@,
            forall|j: int|
                0 <= j < self.0@.len() ==> (#[trigger] final(vm).segments@[
                    self.0@[j].0.segment_index as int
                ]).accessed,
            forall|i: int|
                0 <= i < final(vm).segments@.len() && (forall|j: int|
                    0 <= j < self.0@.len() ==> (#[trigger] self.0@[j]).0.segment_index != i)
                    ==> #[trigger] final(vm).segments@[i] == old(vm).segments@[i],
            final(vm).builtins@ == old(vm).builtins@,
            final(vm).ap == old(vm).ap,
    {
        let n = self.0.len();
        let mut i: usize = 0;
        while i < n
            invariant
                i <= n,
                n == self.0@.len(),
                ledger_wf(self.0@, *vm),
                read_only_segments_ok(*vm, self.0@),
                vm.segments@.len() == old(vm).segments@.len(),
                forall|k: int|
                    0 <= k < vm.segments@.len() ==> (#[trigger] vm.segments@[k]).cells@ == old(
                        vm,
                    ).segments@[k].cells@,
                forall|j: int|
                    0 <= j < i ==> (#[trigger] vm.segments@[
                        self.0@[j].0.segment_index as int
                    ]).accessed,
                forall|k: int|
                    0 <= k < vm.segments@.len() && (forall|j: int|
                        0 <= j < i ==> (#[trigger] self.0@[j]).0.segment_index != k)
                        ==> #[trigger] vm.segments@[k] == old(vm).segments@[k],
                vm.builtins@ == old(vm).builtins@,
                vm.ap == old(vm).ap,
            decreases n - i,
        {
            let (segment_start_ptr, segment_size) = self.0[i];
            let marked = vm.mark_address_range_as_accessed(segment_start_ptr, segment_size);
            proof {
                assert(marked is Ok);
            }
            i = i + 1;
        }
        Ok(())
    }
}

/// One step of the builtin final-stack walk: the cell just below `p` must be
/// a pointer at the used end of the builtin's own segment.
pub open spec fn builtin_step_ok(vm: VirtualMachine, b: BuiltinRunner, p: Relocatable) -> bool {
    &&& p.offset >= 1
    &&& b.segment_index < vm.segments@.len()
    &&& vm.cell_at(p.segment_index as int, p.offset - 1) matches Some(
        MaybeRelocatable::RelocatableValue(stop),
    ) && stop.segment_index == b.segment_index && stop.offset == vm.used_size_of(
        b.segment_index as int,
    )
}

/// Walks the last `k` builtin runners in reverse enumeration order from
/// boundary pointer `p`, validating each final stack; yields the boundary
/// pointer below all of them, or `None` when some builtin's final stack is
/// malformed.
pub open spec fn walk_builtins(vm: VirtualMachine, k: int, p: Relocatable) -> Option<Relocatable>
    decreases k,
{
    if k <= 0 {
        Some(p)
    } else if builtin_step_ok(vm, vm.builtins@[k - 1], p) {
        walk_builtins(
            vm,
            k - 1,
            Relocatable { segment_index: p.segment_index, offset: (p.offset - 1) as usize },
        )
    } else {
        None
    }
}

/// Whether every builtin runner's final stack, walked in reverse enumeration
/// order from `end`, is well formed.
pub open spec fn builtins_final_stack_ok(vm: VirtualMachine, end: Relocatable) -> bool {
    walk_builtins(vm, vm.builtins@.len() as int, end) is Some
}

/// The boundary pointer reached after stepping back across all builtins.
pub open spec fn pointer_after_builtins(vm: VirtualMachine, end: Relocatable) -> Relocatable {
    walk_builtins(vm, vm.builtins@.len() as int, end)->Some_0
}

/// After the builtin walk, the pointer reached (minus one, to skip the
/// syscall pointer slot) must sit exactly `n_implicit` cells before `end`:
/// any deviation means the program altered its implicit-argument region.
pub open spec fn implicit_args_length_ok(
    vm: VirtualMachine,
    n_implicit: nat,
    end: Relocatable,
) -> bool {
    let p = pointer_after_builtins(vm, end);
    &&& p.offset >= 1
    &&& p.offset - 1 + n_implicit == end.offset
}

/// The stored syscall-region pointer must point at offset zero of its
/// segment; a nonzero offset means a forged or relocated syscall pointer.
pub open spec fn syscall_start_ok(first: MaybeRelocatable) -> bool {
    first matches MaybeRelocatable::RelocatableValue(p) && p.offset == 0
}

/// The end-of-syscall-region pointer read from machine memory must equal the
/// start pointer plus the segment's actually-used size.
pub open spec fn syscall_size_ok(
    vm: VirtualMachine,
    start: Relocatable,
    end_read: Relocatable,
) -> bool {
    &&& end_read.segment_index == start.segment_index
    &&& end_read.offset == start.offset + vm.used_size_of(start.segment_index as int)
}

/// The complete verdict of the post-execution security validation protocol,
/// in the exact order the six checks run; each failure carries the
/// checkpoint that caught it.
pub open spec fn validation_result(
    vm: VirtualMachine,
    implicit_args: Seq<MaybeRelocatable>,
    implicit_args_end: Relocatable,
    syscall_ptr: Relocatable,
    ledger: Seq<(Relocatable, usize)>,
) -> Result<(), PostExecutionError> {
    if !builtins_final_stack_ok(vm, implicit_args_end) {
        Err(PostExecutionError::SecurityValidationError(SecurityCheck::BuiltinFinalStack))
    } else if !implicit_args_length_ok(vm, implicit_args.len(), implicit_args_end) {
        Err(PostExecutionError::SecurityValidationError(SecurityCheck::ImplicitArgsSegments))
    } else if !(implicit_args[0] matches MaybeRelocatable::RelocatableValue(_)) {
        Err(PostExecutionError::MemoryError(MemoryError::ExpectedRelocatable))
    } else if !syscall_start_ok(implicit_args[0]) {
        Err(PostExecutionError::SecurityValidationError(SecurityCheck::SyscallSegmentStart))
    } else {
        let syscall_start = implicit_args[0]->RelocatableValue_0;
        let args_start = Relocatable {
            segment_index: pointer_after_builtins(vm, implicit_args_end).segment_index,
            offset: (pointer_after_builtins(vm, implicit_args_end).offset - 1) as usize,
        };
        if !(vm.cell(args_start) matches Some(MaybeRelocatable::RelocatableValue(_))) {
            Err(PostExecutionError::MemoryError(MemoryError::ExpectedRelocatable))
        } else {
            let syscall_end = vm.cell(args_start)->Some_0->RelocatableValue_0;
            if !syscall_size_ok(vm, syscall_start, syscall_end) {
                Err(PostExecutionError::SecurityValidationError(SecurityCheck::SyscallSegmentSize))
            } else if syscall_end != syscall_ptr {
                Err(PostExecutionError::SecurityValidationError(SecurityCheck::SyscallSegmentEnd))
            } else if !read_only_segments_ok(vm, ledger) {
                Err(PostExecutionError::SecurityValidationError(SecurityCheck::ReadOnlySegments))
            } else {
                Ok(())
            }
        }
    }
}

/// The post-execution security validation protocol, in this exact order:
/// (1) each builtin runner's final stack, walked in reverse enumeration
/// order; (2) the implicit-argument region's length; (3) the syscall
/// pointer's segment-start position; (4) the syscall segment's claimed size
/// against its actually-used size; (5) the claimed syscall boundary against
/// the collaborator's own bookkeeping; (6) every read-only segment's used
/// size against its declared length. Returns exactly the verdict of
/// `validation_result`; a failure is never silently downgraded.
pub fn validate_run(
    vm: &VirtualMachine,
    implicit_args: &Vec<MaybeRelocatable>,
    implicit_args_end: Relocatable,
    syscall_handler: &SyscallHintProcessor,
) -> (r: Result<(), PostExecutionError>)
    requires
        implicit_args@.len() >= 1,
        implicit_args@[0] matches MaybeRelocatable::RelocatableValue(p) ==> p.segment_index
            < vm.segments@.len(),
        ledger_wf(syscall_handler.read_only_segments.0@, *vm),
    ensures
        r == validation_result(
            *vm,
            implicit_args@,
            implicit_args_end,
            syscall_handler.syscall_ptr,
            syscall_handler.read_only_segments.0@,
        ),
{
    // Validate builtins' final stacks, in reverse enumeration order; each
    // step yields the boundary pointer of the previous builtin's region.
    let n_builtins = vm.builtins.len();
    let mut current_builtin_ptr = implicit_args_end;
    let mut j: usize = n_builtins;
    while j > 0
        invariant
            j <= n_builtins,
            n_builtins == vm.builtins@.len(),
            walk_builtins(*vm, n_builtins as int, implicit_args_end) == walk_builtins(
                *vm,
                j as int,
                current_builtin_ptr,
            ),
        decreases j,
    {
        let builtin = vm.builtins[j - 1];
        let mut step_ok = false;
        let mut prev = current_builtin_ptr;
        if current_builtin_ptr.offset >= 1 {
            prev = Relocatable {
                segment_index: current_builtin_ptr.segment_index,
                offset: current_builtin_ptr.offset - 1,
            };
            match vm.get_maybe(prev) {
                Some(MaybeRelocatable::RelocatableValue(stop)) => {
                    match vm.get_segment_used_size(builtin.segment_index) {
                        Some(used) => {
                            if stop.segment_index == builtin.segment_index && stop.offset == used {
                                step_ok = true;
                            }
                        },
                        None => {},
                    }
                },
                _ => {},
            }
        }
        if !step_ok {
            proof {
                assert(!builtin_step_ok(*vm, vm.builtins@[j - 1], current_builtin_ptr));
                assert(walk_builtins(*vm, j as int, current_builtin_ptr) is None);
            }
            return Err(
                PostExecutionError::SecurityValidationError(SecurityCheck::BuiltinFinalStack),
            );
        }
        proof {
            assert(builtin_step_ok(*vm, vm.builtins@[j - 1], current_builtin_ptr));
        }
        current_builtin_ptr = prev;
        j = j - 1;
    }
    proof {
        assert(walk_builtins(*vm, 0, current_builtin_ptr) == Some(current_builtin_ptr));
        assert(builtins_final_stack_ok(*vm, implicit_args_end));
        assert(pointer_after_builtins(*vm, implicit_args_end) == current_builtin_ptr);
    }

    // Validate that the implicit-argument region's length is unchanged.
    // Subtract one to get to the first implicit argument (the syscall
    // pointer slot).
    let implicit_args_start = match current_builtin_ptr.sub_usize(1) {
        Some(p) => p,
        None => {
            return Err(
                PostExecutionError::SecurityValidationError(SecurityCheck::ImplicitArgsSegments),
            );
        },
    };
    if !(implicit_args_end.offset >= implicit_args_start.offset && implicit_args_end.offset
        - implicit_args_start.offset == implicit_args.len()) {
        return Err(
            PostExecutionError::SecurityValidationError(SecurityCheck::ImplicitArgsSegments),
        );
    }

    // Validate the syscall segment's start: the stored syscall pointer must
    // point at offset zero of its segment.
    let syscall_start_ptr = match implicit_args[0] {
        MaybeRelocatable::RelocatableValue(p) => p,
        MaybeRelocatable::Int(_) => {
            return Err(PostExecutionError::MemoryError(MemoryError::ExpectedRelocatable));
        },
    };
    if syscall_start_ptr.offset != 0 {
        return Err(
            PostExecutionError::SecurityValidationError(SecurityCheck::SyscallSegmentStart),
        );
    }

    // Validate the syscall segment's size: the end pointer read from memory
    // must equal the start pointer plus the segment's actually-used size.
    let syscall_end_ptr = match vm.get_relocatable(implicit_args_start) {
        Ok(p) => p,
        Err(_) => {
            return Err(PostExecutionError::MemoryError(MemoryError::ExpectedRelocatable));
        },
    };
    let syscall_used_size = match vm.get_segment_used_size(syscall_start_ptr.segment_index) {
        Some(u) => u,
        None => {
            proof {
                assert(false);
            }
            return Err(
                PostExecutionError::SecurityValidationError(SecurityCheck::SyscallSegmentSize),
            );
        },
    };
    if !(syscall_end_ptr.segment_index == syscall_start_ptr.segment_index
        && syscall_end_ptr.offset == syscall_used_size) {
        return Err(PostExecutionError::SecurityValidationError(SecurityCheck::SyscallSegmentSize));
    }

    // Validate the syscall segment's end against the collaborator's own
    // bookkeeping.
    if !syscall_handler.verify_syscall_ptr(syscall_end_ptr) {
        return Err(PostExecutionError::SecurityValidationError(SecurityCheck::SyscallSegmentEnd));
    }

    // Validate every read-only segment's size.
    let r = syscall_handler.read_only_segments.validate(vm);
    proof {
        let expected = validation_result(
            *vm,
            implicit_args@,
            implicit_args_end,
            syscall_handler.syscall_ptr,
            syscall_handler.read_only_segments.0@,
        );
        match r {
            Ok(u) => {
                assert(expected == Ok::<(), PostExecutionError>(u));
            },
            Err(e) => {
                assert(expected == Err::<(), PostExecutionError>(e));
            },
        }
    }
    r
}

/// The outcome of decoding the `size`-cell range starting at offset `off` of
/// segment `seg` into field elements: the first unset cell fails the range,
/// and the first pointer cell fails it with the offending cell.
pub open spec fn range_result(vm: VirtualMachine, seg: int, off: int, size: int) -> Result<
    Seq<u128>,
    PostExecutionError,
>
    decreases size,
{
    if size <= 0 {
        Ok(Seq::empty())
    } else {
        match vm.cell_at(seg, off) {
            None => Err(PostExecutionError::NoneInMemoryRange),
            Some(MaybeRelocatable::Int(v)) => match range_result(vm, seg, off + 1, size - 1) {
                Ok(rest) => Ok(seq![v] + rest),
                Err(e) => Err(e),
            },
            Some(c) => Err(PostExecutionError::ExpectedInteger(c)),
        }
    }
}

/// The outcome of decoding a `size`-cell range at `ptr`: a value cell in
/// place of the range pointer fails outright.
pub open spec fn felt_range_result(vm: VirtualMachine, ptr: MaybeRelocatable, size: int) -> Result<
    Seq<u128>,
    PostExecutionError,
> {
    match ptr {
        MaybeRelocatable::Int(_) => Err(
            PostExecutionError::MemoryError(MemoryError::ExpectedRelocatable),
        ),
        MaybeRelocatable::RelocatableValue(p) => range_result(
            vm,
            p.segment_index as int,
            p.offset as int,
            size,
        ),
    }
}

/// Decoding a range whose first `k` cells are the values `vals` reduces to
/// decoding the rest of the range and prepending `vals`.
proof fn lemma_range_result_split(
    vm: VirtualMachine,
    seg: int,
    off: int,
    size: int,
    k: int,
    vals: Seq<u128>,
)
    requires
        0 <= k <= size,
        vals.len() == k,
        forall|j: int|
            0 <= j < k ==> vm.cell_at(seg, off + j) == Some(
                MaybeRelocatable::Int(#[trigger] vals[j]),
            ),
    ensures
        range_result(vm, seg, off, size) == (match range_result(vm, seg, off + k, size - k) {
            Ok(rest) => Ok::<Seq<u128>, PostExecutionError>(vals + rest),
            Err(e) => Err::<Seq<u128>, PostExecutionError>(e),
        }),
    decreases k,
{
    if k == 0 {
        assert(vals =~= Seq::<u128>::empty());
        match range_result(vm, seg, off, size) {
            Ok(rest) => {
                assert(vals + rest =~= rest);
            },
            Err(_) => {},
        }
    } else {
        assert(vm.cell_at(seg, off) == Some(MaybeRelocatable::Int(vals[0])));
        lemma_range_result_split(vm, seg, off + 1, size - 1, k - 1, vals.drop_first());
        match range_result(vm, seg, off + k, size - k) {
            Ok(rest) => {
                assert(seq![vals[0]] + (vals.drop_first() + rest) =~= vals + rest);
            },
            Err(_) => {},
        }
    }
}

/// Reads a contiguous `size`-cell range at `ptr` as field elements: fails on
/// a range pointer that is a value, on an unset cell, and on a pointer cell
/// where a value was expected.
pub fn felt_range(vm: &VirtualMachine, ptr: &MaybeRelocatable, size: usize) -> (r: Result<
    Vec<u128>,
    PostExecutionError,
>)
    ensures
        match r {
            Ok(vals) => felt_range_result(*vm, *ptr, size as int) == Ok::<
                Seq<u128>,
                PostExecutionError,
            >(vals@),
            Err(e) => felt_range_result(*vm, *ptr, size as int) == Err::<
                Seq<u128>,
                PostExecutionError,
            >(e),
        },
{
    let base = match ptr {
        MaybeRelocatable::RelocatableValue(p) => *p,
        MaybeRelocatable::Int(_) => {
            return Err(PostExecutionError::MemoryError(MemoryError::ExpectedRelocatable));
        },
    };
    let seg = base.segment_index;
    let mut vals: Vec<u128> = Vec::new();
    let mut k: usize = 0;
    while k < size
        invariant
            k <= size,
            vals@.len() == k,
            base.offset + k <= usize::MAX,
            forall|j: int|
                0 <= j < k ==> vm.cell_at(seg as int, base.offset + j) == Some(
                    MaybeRelocatable::Int(#[trigger] vals@[j]),
                ),
            k > 0 ==> base.offset + k <= vm.segments@[seg as int].cells@.len(),
            seg == base.segment_index,
            *ptr == MaybeRelocatable::RelocatableValue(base),
        decreases size - k,
    {
        let offset = base.offset + k;
        match vm.get_maybe(Relocatable { segment_index: seg, offset }) {
            Some(MaybeRelocatable::Int(v)) => {
                let used_bound = vm.get_segment_used_size(seg);
                proof {
                    assert(used_bound is Some);
                    assert(vm.cell_at(seg as int, base.offset + k) == Some(
                        MaybeRelocatable::Int(v),
                    ));
                }
                vals.push(v);
            },
            Some(c) => {
                proof {
                    lemma_range_result_split(
                        *vm,
                        seg as int,
                        base.offset as int,
                        size as int,
                        k as int,
                        vals@,
                    );
                    assert(vm.cell_at(seg as int, base.offset as int + k as int) == Some(c));
                    assert(range_result(
                        *vm,
                        seg as int,
                        base.offset as int + k as int,
                        size as int - k as int,
                    ) == Err::<Seq<u128>, PostExecutionError>(
                        PostExecutionError::ExpectedInteger(c),
                    ));
                    assert(*ptr == MaybeRelocatable::RelocatableValue(base));
                }
                return Err(PostExecutionError::ExpectedInteger(c));
            },
            None => {
                proof {
                    lemma_range_result_split(
                        *vm,
                        seg as int,
                        base.offset as int,
                        size as int,
                        k as int,
                        vals@,
                    );
                    assert(vm.cell_at(seg as int, base.offset as int + k as int) is None);
                    assert(range_result(
                        *vm,
                        seg as int,
                        base.offset as int + k as int,
                        size as int - k as int,
                    ) == Err::<Seq<u128>, PostExecutionError>(
                        PostExecutionError::NoneInMemoryRange,
                    ));
                    assert(*ptr == MaybeRelocatable::RelocatableValue(base));
                }
                return Err(PostExecutionError::NoneInMemoryRange);
            },
        }
        k = k + 1;
    }
    proof {
        lemma_range_result_split(*vm, seg as int, base.offset as int, size as int, size as int, vals@);
    }
    Ok(vals)
}

/// Decodes one memory cell as a field element: a pointer cell or an unset
/// cell is not a well-formed return value.
pub fn get_felt_from_memory_cell(memory_cell: Option<MaybeRelocatable>) -> (r: Result<
    u128,
    PostExecutionError,
>)
    ensures
        r == (match memory_cell {
            Some(MaybeRelocatable::Int(v)) => Ok::<u128, PostExecutionError>(v),
            Some(c) => Err::<u128, PostExecutionError>(PostExecutionError::ExpectedInteger(c)),
            None => Err::<u128, PostExecutionError>(PostExecutionError::NoneInMemoryRange),
        }),
{
    match memory_cell {
        Some(MaybeRelocatable::Int(v)) => Ok(v),
        Some(c) => Err(PostExecutionError::ExpectedInteger(c)),
        None => Err(PostExecutionError::NoneInMemoryRange),
    }
}

/// The cells an honest run leaves at the top of the execution segment, just
/// below the two return registers: the final first implicit argument (the
/// syscall region's end pointer), each builtin's final stack pointer in
/// enumeration order, and then the return registers themselves (the
/// return-data length and the return-data pointer).
pub open spec fn final_frame_cells(
    vm0: VirtualMachine,
    sys_end: Relocatable,
    retdata_len: nat,
    retdata_seg: nat,
) -> Seq<Option<MaybeRelocatable>> {
    seq![Some(MaybeRelocatable::RelocatableValue(sys_end))] + Seq::new(
        vm0.builtins@.len(),
        |i: int| Some(
            MaybeRelocatable::RelocatableValue(
                Relocatable {
                    segment_index: vm0.builtins@[i].segment_index,
                    offset: vm0.used_size_of(vm0.builtins@[i].segment_index as int) as usize,
                },
            ),
        ),
    ) + seq![
        Some(MaybeRelocatable::Int(retdata_len as u128)),
        Some(
            MaybeRelocatable::RelocatableValue(
                Relocatable { segment_index: retdata_seg as usize, offset: 0 },
            ),
        ),
    ]
}

/// Invokes the machine from the resolved entry-point offset with the
/// assembled arguments, cooperating with the syscall collaborator. The
/// machine's instruction-level execution is outside this core; what the host
/// observes of it is `run`: the run writes the arguments onto the execution
/// segment, performs the syscalls in order, places the return data in a
/// fresh segment, and leaves the final implicit arguments and the return
/// registers at the top of the execution segment. A machine fault rejects
/// the call with no effect on the state.
pub fn run_entry_point(
    vm: &mut VirtualMachine,
    state: &mut StateStore,
    hint_processor: &mut SyscallHintProcessor,
    entry_point_pc: usize,
    args: &Vec<MaybeRelocatable>,
    run: &ProgramRun,
) -> (r: Result<(), VirtualMachineExecutionError>)
    requires
        EXECUTION_SEGMENT < old(vm).segments@.len(),
        old(vm).segments@.len() < usize::MAX,
        old(hint_processor).syscall_ptr.segment_index < old(vm).segments@.len(),
        old(hint_processor).syscall_ptr.segment_index != EXECUTION_SEGMENT,
        old(hint_processor).syscall_ptr.offset == old(vm).used_size_of(
            old(hint_processor).syscall_ptr.segment_index as int,
        ),
        old(hint_processor).syscall_ptr.offset + 3 * run.syscalls@.len() <= usize::MAX,
        forall|i: int|
            0 <= i < old(vm).builtins@.len() ==> (#[trigger] old(vm).builtins@[i]).segment_index
                < old(vm).segments@.len() && old(vm).builtins@[i].segment_index
                != EXECUTION_SEGMENT && old(vm).builtins@[i].segment_index != old(
                hint_processor,
            ).syscall_ptr.segment_index,
        old(vm).used_size_of(EXECUTION_SEGMENT as int) + args@.len() + old(vm).builtins@.len() + 3
            <= usize::MAX,
    ensures
        r is Ok <==> !run.aborts,
        r is Err ==> r == Err::<(), VirtualMachineExecutionError>(
            VirtualMachineExecutionError::Aborted,
        ) && *final(vm) == *old(vm) && *final(state) == *old(state) && *final(hint_processor)
            == *old(hint_processor),
        r is Ok ==> ({
            let sys_seg = old(hint_processor).syscall_ptr.segment_index as int;
            let sys_end = Relocatable {
                segment_index: old(hint_processor).syscall_ptr.segment_index,
                offset: (old(hint_processor).syscall_ptr.offset + 3 * run.syscalls@.len()) as usize,
            };
            let retdata_seg = old(vm).segments@.len() as int;
            let addr = old(hint_processor).storage_address;
            &&& final(vm).segments@.len() == old(vm).segments@.len() + 1
            &&& final(vm).segments@[EXECUTION_SEGMENT as int].cells@ == old(vm).segments@[
                EXECUTION_SEGMENT as int
            ].cells@ + args@.map(|j: int, c: MaybeRelocatable| Some(c)) + final_frame_cells(
                *old(vm),
                sys_end,
                run.retdata@.len(),
                retdata_seg as nat,
            )
            &&& final(vm).segments@[sys_seg].cells@ == old(vm).segments@[sys_seg].cells@
                + syscall_cells(old(state).view_state(), addr, run.syscalls@)
            &&& final(vm).segments@[retdata_seg].cells@ == run.retdata@.map(
                |j: int, v: u128| Some(MaybeRelocatable::Int(v)),
            )
            &&& forall|i: int|
                0 <= i < old(vm).segments@.len() && i != EXECUTION_SEGMENT && i != sys_seg
                    ==> #[trigger] final(vm).segments@[i] == old(vm).segments@[i]
            &&& final(vm).builtins@ == old(vm).builtins@
            &&& final(vm).ap == (Relocatable {
                segment_index: EXECUTION_SEGMENT,
                offset: (old(vm).used_size_of(EXECUTION_SEGMENT as int) + args@.len() + old(
                    vm,
                ).builtins@.len() + 3) as usize,
            })
            &&& final(state).view_state() == apply_syscalls(
                old(state).view_state(),
                addr,
                run.syscalls@,
            )
            &&& final(state).classes@ == old(state).classes@
            &&& final(state).visited_pcs == old(state).visited_pcs
            &&& final(hint_processor).syscall_ptr == sys_end
            &&& final(hint_processor).storage_address == old(hint_processor).storage_address
            &&& final(hint_processor).caller_address == old(hint_processor).caller_address
            &&& final(hint_processor).read_only_segments.0@ == old(
                hint_processor,
            ).read_only_segments.0@
            &&& final(hint_processor).inner_calls@.len() == old(
                hint_processor,
            ).inner_calls@.len()
            &&& events_view(final(hint_processor).events@) == events_view(
                old(hint_processor).events@,
            ) + events_of(run.syscalls@)
            &&& messages_view(final(hint_processor).l2_to_l1_messages@) == messages_view(
                old(hint_processor).l2_to_l1_messages@,
            ) + messages_of(run.syscalls@)
            &&& run.retdata@.len() <= usize::MAX
        }),
{
    if run.aborts {
        return Err(VirtualMachineExecutionError::Aborted);
    }
    let ghost view0 = state.view_state();
    let ghost addr = hint_processor.storage_address;
    let sys_seg = hint_processor.syscall_ptr.segment_index;
    let ghost sys_off0 = hint_processor.syscall_ptr.offset;

    // Write the assembled arguments onto the execution segment: the call
    // frame the machine starts from.
    let exec_base = match vm.get_segment_used_size(EXECUTION_SEGMENT) {
        Some(u) => u,
        None => {
            proof {
                assert(false);
            }
            return Err(VirtualMachineExecutionError::Aborted);
        },
    };
    let loaded_args = vm.load_data(
        Relocatable { segment_index: EXECUTION_SEGMENT, offset: exec_base },
        args,
    );
    proof {
        assert(loaded_args is Ok);
    }

    // Perform the syscalls in order, threading the state.
    let k = run.syscalls.len();
    let mut i: usize = 0;
    while i < k
        invariant
            i <= k,
            k == run.syscalls@.len(),
            sys_seg == hint_processor.syscall_ptr.segment_index,
            sys_seg != EXECUTION_SEGMENT,
            sys_seg < vm.segments@.len(),
            EXECUTION_SEGMENT < vm.segments@.len(),
            sys_off0 + 3 * k <= usize::MAX,
            hint_processor.syscall_ptr.offset == sys_off0 + 3 * i,
            hint_processor.syscall_ptr.offset == vm.used_size_of(sys_seg as int),
            hint_processor.storage_address == addr,
            hint_processor.caller_address == old(hint_processor).caller_address,
            hint_processor.read_only_segments.0@ == old(hint_processor).read_only_segments.0@,
            hint_processor.inner_calls@.len() == old(hint_processor).inner_calls@.len(),
            events_view(hint_processor.events@) == events_view(old(hint_processor).events@)
                + events_of(run.syscalls@.take(i as int)),
            messages_view(hint_processor.l2_to_l1_messages@) == messages_view(
                old(hint_processor).l2_to_l1_messages@,
            ) + messages_of(run.syscalls@.take(i as int)),
            vm.segments@.len() == old(vm).segments@.len(),
            vm.segments@[sys_seg as int].cells@ == old(vm).segments@[sys_seg as int].cells@
                + syscall_cells(view0, addr, run.syscalls@.take(i as int)),
            forall|s: int|
                0 <= s < vm.segments@.len() && s != sys_seg && s != EXECUTION_SEGMENT
                    ==> #[trigger] vm.segments@[s] == old(vm).segments@[s],
            vm.segments@[EXECUTION_SEGMENT as int].cells@ == old(vm).segments@[
                EXECUTION_SEGMENT as int
            ].cells@ + args@.map(|j: int, c: MaybeRelocatable| Some(c)),
            vm.segments@[EXECUTION_SEGMENT as int].accessed == old(vm).segments@[
                EXECUTION_SEGMENT as int
            ].accessed,
            vm.builtins@ == old(vm).builtins@,
            vm.ap == old(vm).ap,
            state.view_state() == apply_syscalls(view0, addr, run.syscalls@.take(i as int)),
            state.classes@ == old(state).classes@,
            state.visited_pcs == old(state).visited_pcs,
        decreases k - i,
    {
        let ghost mid_view = state.view_state();
        let ghost pre_vm = *vm;
        let syscall = &run.syscalls[i];
        hint_processor.execute_syscall(vm, state, syscall);
        proof {
            assert(vm.segments@[EXECUTION_SEGMENT as int] == pre_vm.segments@[
                EXECUTION_SEGMENT as int
            ]);
            let cs = run.syscalls@;
            let c = cs[i as int];
            assert(cs.take(i + 1) =~= cs.take(i as int).push(c));
            lemma_apply_syscalls_snoc(view0, addr, cs.take(i as int), c);
            lemma_syscall_cells_snoc(view0, addr, cs.take(i as int), c);
            lemma_events_of_snoc(cs.take(i as int), c);
            lemma_messages_of_snoc(cs.take(i as int), c);
            let single = seq![c];
            assert(single.first() == c);
            assert(single.drop_first() =~= Seq::<Syscall>::empty());
            assert(events_of(Seq::<Syscall>::empty()) =~= Seq::<
                crate::entry_point::EventView,
            >::empty());
            assert(messages_of(Seq::<Syscall>::empty()) =~= Seq::<
                crate::entry_point::MessageView,
            >::empty());
            assert(vm.segments@[sys_seg as int].cells@ =~= old(vm).segments@[
                sys_seg as int
            ].cells@ + syscall_cells(view0, addr, cs.take(i + 1)));
        }
        i = i + 1;
    }
    proof {
        assert(run.syscalls@.take(k as int) =~= run.syscalls@);
    }

    // Place the return data in a fresh segment.
    let retdata_seg_ptr = vm.add_memory_segment();
    let m = run.retdata.len();
    let mut retdata_cells: Vec<MaybeRelocatable> = Vec::new();
    let mut j: usize = 0;
    while j < m
        invariant
            j <= m,
            m == run.retdata@.len(),
            retdata_cells@ == run.retdata@.take(j as int).map(
                |t: int, v: u128| MaybeRelocatable::Int(v),
            ),
        decreases m - j,
    {
        retdata_cells.push(MaybeRelocatable::Int(run.retdata[j]));
        proof {
            assert(run.retdata@.take(j + 1).map(|t: int, v: u128| MaybeRelocatable::Int(v))
                =~= run.retdata@.take(j as int).map(
                |t: int, v: u128| MaybeRelocatable::Int(v),
            ).push(MaybeRelocatable::Int(run.retdata@[j as int])));
        }
        j = j + 1;
    }
    proof {
        assert(run.retdata@.take(m as int) =~= run.retdata@);
    }
    let loaded_retdata = vm.load_data(retdata_seg_ptr, &retdata_cells);
    proof {
        assert(loaded_retdata is Ok);
    }

    // Leave the final implicit arguments and the return registers at the top
    // of the execution segment, and point the allocation pointer past them.
    let ghost pre_frame = vm.segments@;
    vm.push_cell(
        EXECUTION_SEGMENT,
        MaybeRelocatable::RelocatableValue(hint_processor.syscall_ptr),
    );
    let n_builtins = vm.builtins.len();
    let mut b: usize = 0;
    while b < n_builtins
        invariant
            b <= n_builtins,
            n_builtins == vm.builtins@.len(),
            vm.builtins@ == old(vm).builtins@,
            EXECUTION_SEGMENT < vm.segments@.len(),
            vm.segments@.len() == old(vm).segments@.len() + 1,
            forall|i: int|
                0 <= i < vm.builtins@.len() ==> (#[trigger] vm.builtins@[i]).segment_index
                    < old(vm).segments@.len() && vm.builtins@[i].segment_index
                    != EXECUTION_SEGMENT,
            forall|i: int|
                0 <= i < vm.builtins@.len() ==> #[trigger] vm.used_size_of(
                    vm.builtins@[i].segment_index as int,
                ) == old(vm).used_size_of(vm.builtins@[i].segment_index as int),
            vm.segments@[EXECUTION_SEGMENT as int].cells@.len() <= usize::MAX - (n_builtins - b)
                - 2,
            vm.segments@[EXECUTION_SEGMENT as int].cells@ == old(vm).segments@[
                EXECUTION_SEGMENT as int
            ].cells@ + args@.map(|t: int, c: MaybeRelocatable| Some(c)) + seq![
                Some(
                    MaybeRelocatable::RelocatableValue(
                        Relocatable {
                            segment_index: sys_seg,
                            offset: (sys_off0 + 3 * k) as usize,
                        },
                    ),
                ),
            ] + Seq::new(
                b as nat,
                |i: int| Some(
                    MaybeRelocatable::RelocatableValue(
                        Relocatable {
                            segment_index: old(vm).builtins@[i].segment_index,
                            offset: old(vm).used_size_of(
                                old(vm).builtins@[i].segment_index as int,
                            ) as usize,
                        },
                    ),
                ),
            ),
            vm.segments@.len() == pre_frame.len(),
            forall|s: int|
                0 <= s < vm.segments@.len() && s != EXECUTION_SEGMENT ==> #[trigger] vm.segments@[
                    s
                ] == pre_frame[s],
        decreases n_builtins - b,
    {
        let ghost pre_vm = *vm;
        let seg_idx = vm.builtins[b].segment_index;
        let used = match vm.get_segment_used_size(seg_idx) {
            Some(u) => u,
            None => {
                proof {
                    assert(false);
                }
                return Err(VirtualMachineExecutionError::Aborted);
            },
        };
        vm.push_cell(
            EXECUTION_SEGMENT,
            MaybeRelocatable::RelocatableValue(Relocatable { segment_index: seg_idx, offset: used }),
        );
        proof {
            assert(Seq::new(
                (b + 1) as nat,
                |i: int| Some(
                    MaybeRelocatable::RelocatableValue(
                        Relocatable {
                            segment_index: old(vm).builtins@[i].segment_index,
                            offset: old(vm).used_size_of(
                                old(vm).builtins@[i].segment_index as int,
                            ) as usize,
                        },
                    ),
                ),
            ) =~= Seq::new(
                b as nat,
                |i: int| Some(
                    MaybeRelocatable::RelocatableValue(
                        Relocatable {
                            segment_index: old(vm).builtins@[i].segment_index,
                            offset: old(vm).used_size_of(
                                old(vm).builtins@[i].segment_index as int,
                            ) as usize,
                        },
                    ),
                ),
            ).push(
                Some(
                    MaybeRelocatable::RelocatableValue(
                        Relocatable { segment_index: seg_idx, offset: used },
                    ),
                ),
            ));
            assert forall|i: int| 0 <= i < vm.builtins@.len() implies #[trigger] vm.used_size_of(
                vm.builtins@[i].segment_index as int,
            ) == old(vm).used_size_of(vm.builtins@[i].segment_index as int) by {
                assert(vm.builtins@ == pre_vm.builtins@);
                assert(pre_vm.used_size_of(pre_vm.builtins@[i].segment_index as int) == old(
                    vm,
                ).used_size_of(pre_vm.builtins@[i].segment_index as int));
                assert(vm.segments@[vm.builtins@[i].segment_index as int] == pre_vm.segments@[
                    vm.builtins@[i].segment_index as int
                ]);
            }
        }
        b = b + 1;
    }
    vm.push_cell(EXECUTION_SEGMENT, MaybeRelocatable::Int(m as u128));
    vm.push_cell(EXECUTION_SEGMENT, MaybeRelocatable::RelocatableValue(retdata_seg_ptr));
    let exec_used = match vm.get_segment_used_size(EXECUTION_SEGMENT) {
        Some(u) => u,
        None => {
            proof {
                assert(false);
            }
            return Err(VirtualMachineExecutionError::Aborted);
        },
    };
    vm.ap = Relocatable { segment_index: EXECUTION_SEGMENT, offset: exec_used };
    proof {
        assert(final_frame_cells(
            *old(vm),
            hint_processor.syscall_ptr,
            run.retdata@.len(),
            old(vm).segments@.len() as nat,
        ) =~= seq![
            Some(MaybeRelocatable::RelocatableValue(hint_processor.syscall_ptr)),
        ] + Seq::new(
            old(vm).builtins@.len(),
            |i: int| Some(
                MaybeRelocatable::RelocatableValue(
                    Relocatable {
                        segment_index: old(vm).builtins@[i].segment_index,
                        offset: old(vm).used_size_of(
                            old(vm).builtins@[i].segment_index as int,
                        ) as usize,
                    },
                ),
            ),
        ) + seq![
            Some(MaybeRelocatable::Int(run.retdata@.len() as u128)),
            Some(MaybeRelocatable::RelocatableValue(retdata_seg_ptr)),
        ]);
        assert(vm.segments@[EXECUTION_SEGMENT as int].cells@ =~= old(vm).segments@[
            EXECUTION_SEGMENT as int
        ].cells@ + args@.map(|t: int, c: MaybeRelocatable| Some(c)) + final_frame_cells(
            *old(vm),
            hint_processor.syscall_ptr,
            run.retdata@.len(),
            old(vm).segments@.len() as nat,
        ));
        assert(retdata_cells@.map(|t: int, c: MaybeRelocatable| Some(c)) =~= run.retdata@.map(
            |t: int, v: u128| Some(MaybeRelocatable::Int(v)),
        ));
    }
    Ok(())
}

/// An ephemeral, exclusively-owned bundle produced for one call: the machine
/// instance, its syscall collaborator, the pointer marking the start of the
/// syscall communication region, and the resolved entry-point offset.
#[derive(Debug)]
pub struct ExecutionContext {
    pub vm: VirtualMachine,
    pub syscall_handler: SyscallHintProcessor,
    pub initial_syscall_ptr: Relocatable,
    pub entry_point_pc: usize,
}

/// Resolves the class's compiled program from the state store and the entry
/// point's starting offset from its metadata, instantiates a fresh machine
/// with all `n_builtins` builtin runners enabled, and allocates one fresh
/// memory segment as the syscall communication channel. No state-store
/// mutation; fails exactly when the class is unknown or the selector does
/// not resolve to exactly one entry point.
pub fn initialize_execution_context(
    call_entry_point: &CallEntryPoint,
    class_hash: ClassHash,
    state: &StateStore,
    n_builtins: usize,
) -> (r: Result<ExecutionContext, PreExecutionError>)
    requires
        n_builtins + 3 <= usize::MAX,
    ensures
        r is Ok <==> (state.class_value(class_hash) matches Some(eps) && count_matching(
            eps,
            call_entry_point.entry_point_selector,
        ) == 1),
        state.class_value(class_hash) is None ==> r == Err::<ExecutionContext, PreExecutionError>(
            PreExecutionError::ClassNotFound(class_hash),
        ),
        (state.class_value(class_hash) matches Some(eps) && count_matching(
            eps,
            call_entry_point.entry_point_selector,
        ) == 0) ==> r == Err::<ExecutionContext, PreExecutionError>(
            PreExecutionError::EntryPointNotFound(call_entry_point.entry_point_selector),
        ),
        (state.class_value(class_hash) matches Some(eps) && count_matching(
            eps,
            call_entry_point.entry_point_selector,
        ) > 1) ==> r == Err::<ExecutionContext, PreExecutionError>(
            PreExecutionError::DuplicateEntryPoint(call_entry_point.entry_point_selector),
        ),
        r matches Ok(ctx) ==> ({
            &&& ctx.vm.segments@.len() == n_builtins + 3
            &&& forall|i: int|
                0 <= i < ctx.vm.segments@.len() ==> #[trigger] ctx.vm.segments@[i].cells@.len()
                    == 0
            &&& ctx.vm.builtins@.len() == n_builtins
            &&& forall|i: int|
                0 <= i < n_builtins ==> #[trigger] ctx.vm.builtins@[i].segment_index == 2 + i
            &&& ctx.vm.ap == (Relocatable { segment_index: EXECUTION_SEGMENT, offset: 0 })
            &&& ctx.initial_syscall_ptr == (Relocatable {
                segment_index: (n_builtins + 2) as usize,
                offset: 0,
            })
            &&& ctx.syscall_handler.syscall_ptr == ctx.initial_syscall_ptr
            &&& ctx.syscall_handler.storage_address == call_entry_point.storage_address
            &&& ctx.syscall_handler.caller_address == call_entry_point.caller_address
            &&& ctx.syscall_handler.read_only_segments.0@.len() == 0
            &&& ctx.syscall_handler.inner_calls@.len() == 0
            &&& ctx.syscall_handler.events@.len() == 0
            &&& ctx.syscall_handler.l2_to_l1_messages@.len() == 0
            &&& state.class_value(class_hash) matches Some(eps) && count_matching(
                eps,
                call_entry_point.entry_point_selector,
            ) == 1 && exists|i: int|
                0 <= i < eps.len() && (#[trigger] eps[i]).selector
                    == call_entry_point.entry_point_selector && eps[i].pc == ctx.entry_point_pc
        }),
{
    let contract_class = match state.get_contract_class(&class_hash) {
        Ok(c) => c,
        Err(e) => {
            return Err(e);
        },
    };

    // Resolve the initial offset from the entry-point indicator.
    let entry_point_pc = match call_entry_point.resolve_entry_point_pc(contract_class) {
        Ok(pc) => pc,
        Err(e) => {
            return Err(e);
        },
    };

    // Instantiate a fresh machine with all builtin runners enabled.
    let mut vm = VirtualMachine::new(n_builtins);
    let ghost vm0 = vm;

    // Allocate the syscall communication channel and instantiate the
    // syscall collaborator.
    let initial_syscall_ptr = vm.add_memory_segment();
    proof {
        assert forall|i: int| 0 <= i < vm.segments@.len() implies #[trigger] vm.segments@[
            i
        ].cells@.len() == 0 by {
            if i < vm.segments@.len() - 1 {
                assert(vm.segments@[i] == vm0.segments@[i]);
                assert(vm0.segments@[i].cells@.len() == 0);
            } else {
                assert(vm.segments@.last().cells@.len() == 0);
            }
        }
    }
    let syscall_handler = SyscallHintProcessor::new(
        initial_syscall_ptr,
        call_entry_point.storage_address,
        call_entry_point.caller_address,
    );

    Ok(ExecutionContext { vm, syscall_handler, initial_syscall_ptr, entry_point_pc })
}

/// The implicit-argument sequence of a fresh machine: the syscall region's
/// start pointer, then the initial stack pointer of every builtin runner in
/// enumeration order.
pub open spec fn implicit_args_of(vm: VirtualMachine, initial_syscall_ptr: Relocatable) -> Seq<
    MaybeRelocatable,
> {
    seq![MaybeRelocatable::RelocatableValue(initial_syscall_ptr)] + Seq::new(
        vm.builtins@.len(),
        |i: int| MaybeRelocatable::RelocatableValue(
            Relocatable { segment_index: vm.builtins@[i].segment_index, offset: 0 },
        ),
    )
}

/// Builds the machine's input vector in the call's fixed order: the
/// entry-point selector, the implicit-argument sequence, the calldata
/// length, and a pointer to a newly allocated read-only segment holding the
/// calldata. The calldata buffer is registered in the read-only segment
/// ledger before its pointer is returned. This ordering is the call's
/// calling convention and is preserved exactly.
pub fn prepare_call_arguments(
    call_entry_point: &CallEntryPoint,
    vm: &mut VirtualMachine,
    initial_syscall_ptr: Relocatable,
    read_only_segments: &mut ReadOnlySegments,
) -> (r: Result<(Vec<MaybeRelocatable>, Vec<MaybeRelocatable>), PreExecutionError>)
    requires
        old(vm).segments@.len() < usize::MAX,
        old(vm).builtins@.len() + 4 <= usize::MAX,
    ensures
        r is Ok,
        r matches Ok(t) ==> ({
            let implicit_args = t.0;
            let args = t.1;
            let calldata_ptr = Relocatable {
                segment_index: old(vm).segments@.len() as usize,
                offset: 0,
            };
            &&& implicit_args@ == implicit_args_of(*old(vm), initial_syscall_ptr)
            &&& args@ == seq![MaybeRelocatable::Int(call_entry_point.entry_point_selector)]
                + implicit_args@ + seq![
                MaybeRelocatable::Int(call_entry_point.calldata@.len() as u128),
                MaybeRelocatable::RelocatableValue(calldata_ptr),
            ]
            &&& final(vm).segments@.len() == old(vm).segments@.len() + 1
            &&& final(vm).segments@.last().cells@ == call_entry_point.calldata@.map(
                |j: int, v: u128| Some(MaybeRelocatable::Int(v)),
            )
            &&& forall|i: int|
                0 <= i < old(vm).segments@.len() ==> #[trigger] final(vm).segments@[i] == old(
                    vm,
                ).segments@[i]
            &&& final(vm).builtins@ == old(vm).builtins@
            &&& final(vm).ap == old(vm).ap
            &&& final(read_only_segments).0@ == old(read_only_segments).0@.push(
                (calldata_ptr, call_entry_point.calldata@.len() as usize),
            )
            &&& call_entry_point.calldata@.len() <= usize::MAX
        }),
{
    let mut args: Vec<MaybeRelocatable> = Vec::new();

    // The called entry point's selector.
    args.push(MaybeRelocatable::Int(call_entry_point.entry_point_selector));

    // The implicit arguments: the syscall region's start pointer, then each
    // builtin's initial stack pointer in enumeration order.
    let mut implicit_args: Vec<MaybeRelocatable> = Vec::new();
    implicit_args.push(MaybeRelocatable::RelocatableValue(initial_syscall_ptr));
    let n_builtins = vm.builtins.len();
    let mut i: usize = 0;
    while i < n_builtins
        invariant
            i <= n_builtins,
            n_builtins == vm.builtins@.len(),
            implicit_args@ == seq![MaybeRelocatable::RelocatableValue(initial_syscall_ptr)]
                + Seq::new(
                i as nat,
                |t: int| MaybeRelocatable::RelocatableValue(
                    Relocatable { segment_index: vm.builtins@[t].segment_index, offset: 0 },
                ),
            ),
        decreases n_builtins - i,
    {
        let seg_idx = vm.builtins[i].segment_index;
        implicit_args.push(
            MaybeRelocatable::RelocatableValue(Relocatable { segment_index: seg_idx, offset: 0 }),
        );
        proof {
            assert(implicit_args@ =~= seq![
                MaybeRelocatable::RelocatableValue(initial_syscall_ptr),
            ] + Seq::new(
                (i + 1) as nat,
                |t: int| MaybeRelocatable::RelocatableValue(
                    Relocatable { segment_index: vm.builtins@[t].segment_index, offset: 0 },
                ),
            ));
        }
        i = i + 1;
    }
    let mut t: usize = 0;
    let n_implicit = implicit_args.len();
    while t < n_implicit
        invariant
            t <= n_implicit,
            n_implicit == implicit_args@.len(),
            args@ == seq![MaybeRelocatable::Int(call_entry_point.entry_point_selector)]
                + implicit_args@.take(t as int),
        decreases n_implicit - t,
    {
        args.push(implicit_args[t]);
        proof {
            assert(implicit_args@.take(t + 1) =~= implicit_args@.take(t as int).push(
                implicit_args@[t as int],
            ));
            assert(args@ =~= seq![MaybeRelocatable::Int(call_entry_point.entry_point_selector)]
                + implicit_args@.take(t + 1));
        }
        t = t + 1;
    }
    proof {
        assert(implicit_args@.take(n_implicit as int) =~= implicit_args@);
    }

    // The calldata: its length, then a pointer to a newly allocated
    // read-only segment holding its values.
    let m = call_entry_point.calldata.len();
    let mut calldata_cells: Vec<MaybeRelocatable> = Vec::new();
    let mut j: usize = 0;
    while j < m
        invariant
            j <= m,
            m == call_entry_point.calldata@.len(),
            calldata_cells@ == call_entry_point.calldata@.take(j as int).map(
                |q: int, v: u128| MaybeRelocatable::Int(v),
            ),
        decreases m - j,
    {
        calldata_cells.push(MaybeRelocatable::Int(call_entry_point.calldata[j]));
        proof {
            assert(call_entry_point.calldata@.take(j + 1).map(
                |q: int, v: u128| MaybeRelocatable::Int(v),
            ) =~= call_entry_point.calldata@.take(j as int).map(
                |q: int, v: u128| MaybeRelocatable::Int(v),
            ).push(MaybeRelocatable::Int(call_entry_point.calldata@[j as int])));
        }
        j = j + 1;
    }
    proof {
        assert(call_entry_point.calldata@.take(m as int) =~= call_entry_point.calldata@);
    }
    args.push(MaybeRelocatable::Int(m as u128));
    let calldata_start_ptr = match read_only_segments.allocate(vm, calldata_cells) {
        Ok(p) => p,
        Err(_) => {
            proof {
                assert(false);
            }
            return Err(PreExecutionError::EntryPointNotFound(0));
        },
    };
    args.push(MaybeRelocatable::RelocatableValue(calldata_start_ptr));
    proof {
        assert(final(vm).segments@.last().cells@ =~= call_entry_point.calldata@.map(
            |q: int, v: u128| Some(MaybeRelocatable::Int(v)),
        ));
        assert(args@ =~= seq![MaybeRelocatable::Int(call_entry_point.entry_point_selector)]
            + implicit_args@ + seq![
            MaybeRelocatable::Int(m as u128),
            MaybeRelocatable::RelocatableValue(calldata_start_ptr),
        ]);
    }
    Ok((implicit_args, args))
}

/// Whether the machine's final state lets the Finalizer succeed: readable
/// return registers, a passing security validation, and decodable return
/// data.
pub open spec fn finalization_ok(
    vm: VirtualMachine,
    implicit_args: Seq<MaybeRelocatable>,
    syscall_ptr: Relocatable,
    ledger: Seq<(Relocatable, usize)>,
) -> bool {
    let seg = vm.ap.segment_index as int;
    &&& vm.ap.offset >= 2
    &&& vm.range_set(seg, vm.ap.offset - 2, 2)
    &&& validation_result(
        vm,
        implicit_args,
        Relocatable { segment_index: vm.ap.segment_index, offset: (vm.ap.offset - 2) as usize },
        syscall_ptr,
        ledger,
    ) is Ok
    &&& vm.cell_at(seg, vm.ap.offset - 2) matches Some(MaybeRelocatable::Int(sz)) && sz
        <= usize::MAX as u128 && felt_range_result(
        vm,
        vm.cell_at(seg, vm.ap.offset - 1)->Some_0,
        sz as int,
    ) is Ok
}

/// The decoded return data of a final state that finalizes successfully.
pub open spec fn finalized_retdata(vm: VirtualMachine) -> Seq<u128> {
    let seg = vm.ap.segment_index as int;
    let sz = vm.cell_at(seg, vm.ap.offset - 2)->Some_0->Int_0;
    felt_range_result(vm, vm.cell_at(seg, vm.ap.offset - 1)->Some_0, sz as int)->Ok_0
}

/// Two machines whose segments hold the same cells decode every range the
/// same way.
proof fn lemma_range_result_cells_eq(
    vm1: VirtualMachine,
    vm2: VirtualMachine,
    seg: int,
    off: int,
    size: int,
)
    requires
        vm1.segments@.len() == vm2.segments@.len(),
        forall|i: int|
            0 <= i < vm1.segments@.len() ==> (#[trigger] vm1.segments@[i]).cells@
                == vm2.segments@[i].cells@,
    ensures
        range_result(vm1, seg, off, size) == range_result(vm2, seg, off, size),
    decreases size,
{
    if size > 0 {
        assert(vm1.cell_at(seg, off) == vm2.cell_at(seg, off));
        lemma_range_result_cells_eq(vm1, vm2, seg, off + 1, size - 1);
    }
}

/// Reads the return-data length and pointer from the machine's return
/// registers and decodes the pointed-to range into return values.
fn read_execution_retdata(
    vm: VirtualMachine,
    retdata_size: MaybeRelocatable,
    retdata_ptr: MaybeRelocatable,
) -> (r: Result<Retdata, PostExecutionError>)
    ensures
        retdata_size matches MaybeRelocatable::RelocatableValue(_) ==> r == Err::<
            Retdata,
            PostExecutionError,
        >(PostExecutionError::ExpectedInteger(retdata_size)),
        retdata_size matches MaybeRelocatable::Int(sz) && sz > usize::MAX as u128 ==> r == Err::<
            Retdata,
            PostExecutionError,
        >(PostExecutionError::RetdataSizeOutOfRange(retdata_size->Int_0)),
        retdata_size matches MaybeRelocatable::Int(sz) && sz <= usize::MAX as u128 ==> (match r {
            Ok(retdata) => felt_range_result(vm, retdata_ptr, retdata_size->Int_0 as int) == Ok::<
                Seq<u128>,
                PostExecutionError,
            >(retdata.0@),
            Err(e) => felt_range_result(vm, retdata_ptr, retdata_size->Int_0 as int) == Err::<
                Seq<u128>,
                PostExecutionError,
            >(e),
        }),
{
    let retdata_size_value = match retdata_size {
        MaybeRelocatable::Int(sz) => {
            if sz > usize::MAX as u128 {
                return Err(PostExecutionError::RetdataSizeOutOfRange(sz));
            }
            sz as usize
        },
        MaybeRelocatable::RelocatableValue(_) => {
            return Err(PostExecutionError::ExpectedInteger(retdata_size));
        },
    };
    match felt_range(&vm, &retdata_ptr, retdata_size_value) {
        Ok(values) => Ok(Retdata(values)),
        Err(e) => Err(e),
    }
}

/// Extracts the call's result record from validated final state: reads the
/// return registers, runs the six-checkpoint security validation, marks the
/// ledgered read-only segments as accessed, decodes the return data, and
/// assembles the result from the syscall collaborator's accumulated nested
/// calls, events, and outbound messages.
pub fn finalize_execution(
    vm: VirtualMachine,
    call_entry_point: CallEntryPoint,
    syscall_handler: SyscallHintProcessor,
    implicit_args: Vec<MaybeRelocatable>,
) -> (r: Result<CallInfo, PostExecutionError>)
    requires
        implicit_args@.len() >= 1,
        implicit_args@[0] matches MaybeRelocatable::RelocatableValue(p) ==> p.segment_index
            < vm.segments@.len(),
        ledger_wf(syscall_handler.read_only_segments.0@, vm),
    ensures
        r is Ok <==> finalization_ok(
            vm,
            implicit_args@,
            syscall_handler.syscall_ptr,
            syscall_handler.read_only_segments.0@,
        ),
        r matches Ok(info) ==> ({
            &&& info.call == call_entry_point
            &&& info.execution.retdata.0@ == finalized_retdata(vm)
            &&& info.inner_calls == syscall_handler.inner_calls
            &&& info.events == syscall_handler.events
            &&& info.l2_to_l1_messages == syscall_handler.l2_to_l1_messages
        }),
        vm.ap.offset < 2 ==> r == Err::<CallInfo, PostExecutionError>(
            PostExecutionError::MemoryError(MemoryError::InvalidAddress),
        ),
        vm.ap.offset >= 2 && !vm.range_set(vm.ap.segment_index as int, vm.ap.offset - 2, 2) ==> r
            == Err::<CallInfo, PostExecutionError>(
            PostExecutionError::MemoryError(MemoryError::MissingCell),
        ),
        ({
            let verdict = validation_result(
                vm,
                implicit_args@,
                Relocatable {
                    segment_index: vm.ap.segment_index,
                    offset: (vm.ap.offset - 2) as usize,
                },
                syscall_handler.syscall_ptr,
                syscall_handler.read_only_segments.0@,
            );
            vm.ap.offset >= 2 && vm.range_set(vm.ap.segment_index as int, vm.ap.offset - 2, 2)
                && verdict is Err ==> r == Err::<CallInfo, PostExecutionError>(verdict->Err_0)
        }),
        ({
            let seg = vm.ap.segment_index as int;
            let regs_ok = vm.ap.offset >= 2 && vm.range_set(seg, vm.ap.offset - 2, 2);
            let verdict = validation_result(
                vm,
                implicit_args@,
                Relocatable {
                    segment_index: vm.ap.segment_index,
                    offset: (vm.ap.offset - 2) as usize,
                },
                syscall_handler.syscall_ptr,
                syscall_handler.read_only_segments.0@,
            );
            let size_cell = vm.cell_at(seg, vm.ap.offset - 2)->Some_0;
            let ptr_cell = vm.cell_at(seg, vm.ap.offset - 1)->Some_0;
            &&& (regs_ok && verdict is Ok && size_cell matches MaybeRelocatable::RelocatableValue(
                _,
            )) ==> r == Err::<CallInfo, PostExecutionError>(
                PostExecutionError::ExpectedInteger(size_cell),
            )
            &&& (regs_ok && verdict is Ok && (size_cell matches MaybeRelocatable::Int(sz) && sz
                > usize::MAX as u128)) ==> r == Err::<CallInfo, PostExecutionError>(
                PostExecutionError::RetdataSizeOutOfRange(size_cell->Int_0),
            )
            &&& (regs_ok && verdict is Ok && (size_cell matches MaybeRelocatable::Int(sz) && sz
                <= usize::MAX as u128 && felt_range_result(
                vm,
                ptr_cell,
                size_cell->Int_0 as int,
            ) is Err)) ==> r == Err::<CallInfo, PostExecutionError>(
                felt_range_result(vm, ptr_cell, size_cell->Int_0 as int)->Err_0,
            )
        }),
{
    let ghost vm0 = vm;
    let mut vm = vm;
    let return_values = match vm.get_return_values(2) {
        Ok(values) => values,
        Err(e) => {
            return Err(PostExecutionError::MemoryError(e));
        },
    };
    let retdata_size = return_values[0];
    let retdata_ptr = return_values[1];
    let implicit_args_end = match vm.get_ap().sub_usize(2) {
        Some(p) => p,
        None => {
            proof {
                assert(false);
            }
            return Err(PostExecutionError::MemoryError(MemoryError::InvalidAddress));
        },
    };
    match validate_run(&vm, &implicit_args, implicit_args_end, &syscall_handler) {
        Ok(()) => {},
        Err(e) => {
            return Err(e);
        },
    }
    match syscall_handler.read_only_segments.mark_as_accessed(&mut vm) {
        Ok(()) => {},
        Err(e) => {
            proof {
                assert(false);
            }
            return Err(e);
        },
    }
    proof {
        assert(vm.segments@.len() == vm0.segments@.len());
        match retdata_size {
            MaybeRelocatable::Int(sz) => {
                if sz <= usize::MAX as u128 {
                    match retdata_ptr {
                        MaybeRelocatable::RelocatableValue(p) => {
                            lemma_range_result_cells_eq(
                                vm,
                                vm0,
                                p.segment_index as int,
                                p.offset as int,
                                sz as int,
                            );
                        },
                        _ => {},
                    }
                }
            },
            _ => {},
        }
        assert(Some(retdata_size) == vm0.cell_at(vm0.ap.segment_index as int, vm0.ap.offset - 2));
        assert(Some(retdata_ptr) == vm0.cell_at(vm0.ap.segment_index as int, vm0.ap.offset - 1));
    }
    let retdata = match read_execution_retdata(vm, retdata_size, retdata_ptr) {
        Ok(d) => d,
        Err(e) => {
            return Err(e);
        },
    };

    Ok(
        CallInfo {
            call: call_entry_point,
            execution: CallExecution { retdata },
            inner_calls: syscall_handler.inner_calls,
            events: syscall_handler.events,
            l2_to_l1_messages: syscall_handler.l2_to_l1_messages,
        },
    )
}

/// A walk in reverse enumeration order across builtin final-stack pointers
/// that an honest run laid out just below `p` — the pointer for builtin `i`
/// at offset `p.offset - k + i`, each at the used end of its own segment —
/// validates them all and lands `k` cells below `p`.
proof fn lemma_walk_honest(vm: VirtualMachine, k: int, p: Relocatable)
    requires
        0 <= k <= vm.builtins@.len(),
        p.offset >= k,
        forall|i: int|
            0 <= i < k ==> (#[trigger] vm.builtins@[i]).segment_index < vm.segments@.len(),
        forall|i: int|
            0 <= i < k ==> vm.cell_at(p.segment_index as int, p.offset - k + i) == Some(
                MaybeRelocatable::RelocatableValue(
                    Relocatable {
                        segment_index: (#[trigger] vm.builtins@[i]).segment_index,
                        offset: vm.used_size_of(vm.builtins@[i].segment_index as int) as usize,
                    },
                ),
            ),
        forall|i: int|
            0 <= i < k ==> vm.used_size_of((#[trigger] vm.builtins@[i]).segment_index as int)
                <= usize::MAX,
    ensures
        walk_builtins(vm, k, p) == Some(
            Relocatable { segment_index: p.segment_index, offset: (p.offset - k) as usize },
        ),
    decreases k,
{
    if k > 0 {
        let prev = Relocatable { segment_index: p.segment_index, offset: (p.offset - 1) as usize };
        assert(vm.cell_at(p.segment_index as int, p.offset - k + (k - 1)) == Some(
            MaybeRelocatable::RelocatableValue(
                Relocatable {
                    segment_index: vm.builtins@[k - 1].segment_index,
                    offset: vm.used_size_of(vm.builtins@[k - 1].segment_index as int) as usize,
                },
            ),
        ));
        assert(builtin_step_ok(vm, vm.builtins@[k - 1], p));
        lemma_walk_honest(vm, k - 1, prev);
    }
}

/// Executes a specific call to a contract entry point and returns its
/// validated result record. Builds the execution context, assembles the
/// arguments, drives the machine through the observable run, validates the
/// final memory layout, and extracts the result. For an honest run — the
/// class found, the selector resolving to exactly one entry point, and no
/// machine fault — the validator accepts, and the result's return data
/// matches the machine's return registers exactly.
pub fn execute_entry_point_call(
    call_entry_point: CallEntryPoint,
    class_hash: ClassHash,
    state: &mut StateStore,
    run: &ProgramRun,
    n_builtins: usize,
) -> (r: Result<CallInfo, EntryPointExecutionError>)
    requires
        2 * n_builtins + 16 <= usize::MAX,
        3 * run.syscalls@.len() <= usize::MAX,
    ensures
        r is Ok <==> (old(state).class_value(class_hash) matches Some(eps) && count_matching(
            eps,
            call_entry_point.entry_point_selector,
        ) == 1 && !run.aborts),
        old(state).class_value(class_hash) is None ==> r == Err::<
            CallInfo,
            EntryPointExecutionError,
        >(
            EntryPointExecutionError::PreExecutionError(
                PreExecutionError::ClassNotFound(class_hash),
            ),
        ),
        (old(state).class_value(class_hash) matches Some(eps) && count_matching(
            eps,
            call_entry_point.entry_point_selector,
        ) == 0) ==> r == Err::<CallInfo, EntryPointExecutionError>(
            EntryPointExecutionError::PreExecutionError(
                PreExecutionError::EntryPointNotFound(call_entry_point.entry_point_selector),
            ),
        ),
        (old(state).class_value(class_hash) matches Some(eps) && count_matching(
            eps,
            call_entry_point.entry_point_selector,
        ) > 1) ==> r == Err::<CallInfo, EntryPointExecutionError>(
            EntryPointExecutionError::PreExecutionError(
                PreExecutionError::DuplicateEntryPoint(call_entry_point.entry_point_selector),
            ),
        ),
        (old(state).class_value(class_hash) matches Some(eps) && count_matching(
            eps,
            call_entry_point.entry_point_selector,
        ) == 1 && run.aborts) ==> r == Err::<CallInfo, EntryPointExecutionError>(
            EntryPointExecutionError::VirtualMachineExecutionError(
                VirtualMachineExecutionError::Aborted,
            ),
        ),
        r is Err ==> final(state).storage@ == old(state).storage@ && final(state).address_to_class@
            == old(state).address_to_class@ && final(state).classes@ == old(state).classes@
            && final(state).visited_pcs == old(state).visited_pcs,
        r matches Ok(info) ==> ({
            &&& info.call == call_entry_point
            &&& info.execution.retdata.0@ == run.retdata@
            &&& info.inner_calls@.len() == 0
            &&& events_view(info.events@) == events_of(run.syscalls@)
            &&& messages_view(info.l2_to_l1_messages@) == messages_of(run.syscalls@)
            &&& final(state).view_state() == apply_syscalls(
                old(state).view_state(),
                call_entry_point.storage_address,
                run.syscalls@,
            )
            &&& final(state).classes@ == old(state).classes@
            &&& final(state).visited_pcs == old(state).visited_pcs
        }),
{
    let mut execution_context = match initialize_execution_context(
        &call_entry_point,
        class_hash,
        state,
        n_builtins,
    ) {
        Ok(ctx) => ctx,
        Err(e) => {
            return Err(EntryPointExecutionError::PreExecutionError(e));
        },
    };
    let (implicit_args, args) = match prepare_call_arguments(
        &call_entry_point,
        &mut execution_context.vm,
        execution_context.initial_syscall_ptr,
        &mut execution_context.syscall_handler.read_only_segments,
    ) {
        Ok(t) => t,
        Err(e) => {
            proof {
                assert(false);
            }
            return Err(EntryPointExecutionError::PreExecutionError(e));
        },
    };
    let ghost vm2 = execution_context.vm;
    let ghost state2 = *state;

    match run_entry_point(
        &mut execution_context.vm,
        state,
        &mut execution_context.syscall_handler,
        execution_context.entry_point_pc,
        &args,
        run,
    ) {
        Ok(()) => {},
        Err(e) => {
            return Err(EntryPointExecutionError::VirtualMachineExecutionError(e));
        },
    }

    proof {
        let n = n_builtins as int;
        let m = call_entry_point.calldata@.len() as int;
        let k = run.syscalls@.len() as int;
        let vm3 = execution_context.vm;
        let handler3 = execution_context.syscall_handler;
        let isp = execution_context.initial_syscall_ptr;
        let retlen = run.retdata@.len() as int;
        let sys_end = Relocatable { segment_index: (n + 2) as usize, offset: (3 * k) as usize };
        let end = Relocatable { segment_index: EXECUTION_SEGMENT, offset: (2 * n + 5) as usize };
        let frame = final_frame_cells(vm2, sys_end, retlen as nat, (n + 4) as nat);
        let args_s = args@.map(|j: int, c: MaybeRelocatable| Some(c));
        let exec_cells = vm3.segments@[EXECUTION_SEGMENT as int].cells@;

        // The shape of the machine after the run.
        assert(isp == (Relocatable { segment_index: (n + 2) as usize, offset: 0 }));
        lemma_syscall_cells_len(state2.view_state(), handler3.storage_address, run.syscalls@);
        assert(vm3.used_size_of(n + 2) == 3 * k);
        assert(handler3.syscall_ptr == sys_end);
        assert(args@.len() == n + 4);
        assert(exec_cells =~= vm2.segments@[EXECUTION_SEGMENT as int].cells@ + args_s + frame);
        assert(vm2.segments@[EXECUTION_SEGMENT as int].cells@.len() == 0);
        assert(exec_cells.len() == 2 * n + 7);
        assert(vm3.ap == (Relocatable {
            segment_index: EXECUTION_SEGMENT,
            offset: (2 * n + 7) as usize,
        }));

        // The final call frame's cells, by index.
        assert(frame.len() == n + 3);
        assert(frame[0] == Some(MaybeRelocatable::RelocatableValue(sys_end)));
        assert(frame[n + 1] == Some(MaybeRelocatable::Int(retlen as u128)));
        assert(frame[n + 2] == Some(
            MaybeRelocatable::RelocatableValue(
                Relocatable { segment_index: (n + 4) as usize, offset: 0 },
            ),
        ));
        assert(vm3.cell_at(EXECUTION_SEGMENT as int, n + 4) == frame[0]);
        assert(vm3.cell_at(EXECUTION_SEGMENT as int, 2 * n + 5) == frame[n + 1]);
        assert(vm3.cell_at(EXECUTION_SEGMENT as int, 2 * n + 6) == frame[n + 2]);

        // The builtin final-stack pointers validate, in reverse order.
        assert forall|i: int| 0 <= i < n implies vm3.cell_at(
            EXECUTION_SEGMENT as int,
            end.offset - n + i,
        ) == Some(
            MaybeRelocatable::RelocatableValue(
                Relocatable {
                    segment_index: (#[trigger] vm3.builtins@[i]).segment_index,
                    offset: vm3.used_size_of(vm3.builtins@[i].segment_index as int) as usize,
                },
            ),
        ) by {
            assert(frame[1 + i] == Some(
                MaybeRelocatable::RelocatableValue(
                    Relocatable {
                        segment_index: vm2.builtins@[i].segment_index,
                        offset: vm2.used_size_of(vm2.builtins@[i].segment_index as int) as usize,
                    },
                ),
            ));
            assert(vm3.cell_at(EXECUTION_SEGMENT as int, end.offset - n + i) == frame[1 + i]);
            assert(vm2.builtins@[i].segment_index == 2 + i);
            assert(vm3.segments@[vm2.builtins@[i].segment_index as int] == vm2.segments@[
                vm2.builtins@[i].segment_index as int
            ]);
        }
        assert forall|i: int| 0 <= i < n implies vm3.used_size_of(
            (#[trigger] vm3.builtins@[i]).segment_index as int,
        ) <= usize::MAX by {
            assert(vm3.segments@[vm3.builtins@[i].segment_index as int] == vm2.segments@[
                vm3.builtins@[i].segment_index as int
            ]);
            assert(vm2.used_size_of(vm3.builtins@[i].segment_index as int) == 0);
        }
        lemma_walk_honest(vm3, n, end);
        assert(builtins_final_stack_ok(vm3, end));
        assert(pointer_after_builtins(vm3, end) == (Relocatable {
            segment_index: EXECUTION_SEGMENT,
            offset: (n + 5) as usize,
        }));

        // The implicit-argument region's length is unchanged.
        assert(implicit_args@.len() == n + 1);
        assert(implicit_args_length_ok(vm3, implicit_args@.len(), end));

        // The syscall segment's start, size, and end validate.
        assert(implicit_args@[0] == MaybeRelocatable::RelocatableValue(isp));
        assert(syscall_start_ok(implicit_args@[0]));
        assert(vm3.cell(
            Relocatable { segment_index: EXECUTION_SEGMENT, offset: (n + 4) as usize },
        ) == Some(MaybeRelocatable::RelocatableValue(sys_end)));
        assert(syscall_size_ok(vm3, isp, sys_end));

        // The read-only calldata segment's size validates.
        assert(handler3.read_only_segments.0@ =~= seq![
            (Relocatable { segment_index: (n + 3) as usize, offset: 0 }, m as usize),
        ]);
        assert(vm3.segments@[n + 3] == vm2.segments@[n + 3]);
        assert(vm3.used_size_of(n + 3) == m);
        assert(read_only_segments_ok(vm3, handler3.read_only_segments.0@));
        assert(ledger_wf(handler3.read_only_segments.0@, vm3));
        assert(validation_result(
            vm3,
            implicit_args@,
            end,
            handler3.syscall_ptr,
            handler3.read_only_segments.0@,
        ) is Ok);

        // The return registers decode to exactly the run's return data.
        assert(vm3.range_set(EXECUTION_SEGMENT as int, 2 * n + 5, 2));
        assert forall|j: int| 0 <= j < retlen implies vm3.cell_at((n + 4) as int, 0 + j) == Some(
            MaybeRelocatable::Int(#[trigger] run.retdata@[j]),
        ) by {
            assert(vm3.segments@[n + 4].cells@[j] == run.retdata@.map(
                |t: int, v: u128| Some(MaybeRelocatable::Int(v)),
            )[j]);
        }
        lemma_range_result_split(vm3, n + 4, 0, retlen, retlen, run.retdata@);
        assert(range_result(vm3, n + 4, 0 + retlen, retlen - retlen) == Ok::<
            Seq<u128>,
            PostExecutionError,
        >(Seq::empty()));
        assert(run.retdata@ + Seq::<u128>::empty() =~= run.retdata@);
        assert(range_result(vm3, n + 4, 0, retlen) == Ok::<Seq<u128>, PostExecutionError>(
            run.retdata@,
        ));
        assert(felt_range_result(
            vm3,
            MaybeRelocatable::RelocatableValue(
                Relocatable { segment_index: (n + 4) as usize, offset: 0 },
            ),
            retlen,
        ) == Ok::<Seq<u128>, PostExecutionError>(run.retdata@));
        assert((retlen as u128) <= usize::MAX as u128);
        assert(finalization_ok(
            vm3,
            implicit_args@,
            handler3.syscall_ptr,
            handler3.read_only_segments.0@,
        ));
        assert(finalized_retdata(vm3) =~= run.retdata@);
    }

    match finalize_execution(
        execution_context.vm,
        call_entry_point,
        execution_context.syscall_handler,
        implicit_args,
    ) {
        Ok(info) => {
            proof {
                assert(events_view(Seq::<crate::entry_point::Event>::empty()) =~= Seq::<
                    crate::entry_point::EventView,
                >::empty());
                assert(messages_view(Seq::<crate::entry_point::MessageToL1>::empty()) =~= Seq::<
                    crate::entry_point::MessageView,
                >::empty());
                assert(events_view(info.events@) =~= events_of(run.syscalls@));
                assert(messages_view(info.l2_to_l1_messages@) =~= messages_of(run.syscalls@));
            }
            Ok(info)
        },
        Err(e) => {
            proof {
                assert(false);
            }
            Err(EntryPointExecutionError::PostExecutionError(e))
        },
    }
}

/// The selector of a class's constructor entry point.
pub const CONSTRUCTOR_ENTRY_POINT_SELECTOR: u128 = 0x636f6e7374727563746f72;

/// Instantiates the given class at an address and runs its constructor
/// through the entry-point pipeline. The address-to-class binding is
/// registered in the state store before the constructor runs, so that the
/// constructor observes its own address as already deployed; the binding
/// survives whether or not the constructor succeeds, and no syscall can
/// undo it.
pub fn execute_deployment(
    state: &mut StateStore,
    class_hash: ClassHash,
    deployed_contract_address: ContractAddress,
    deployer_address: ContractAddress,
    constructor_calldata: Vec<u128>,
    run: &ProgramRun,
    n_builtins: usize,
) -> (r: Result<CallInfo, EntryPointExecutionError>)
    requires
        2 * n_builtins + 16 <= usize::MAX,
        3 * run.syscalls@.len() <= usize::MAX,
    ensures
        final(state).class_hash_value(deployed_contract_address) == class_hash,
        final(state).classes@ == old(state).classes@,
        final(state).visited_pcs == old(state).visited_pcs,
        r is Ok <==> (old(state).class_value(class_hash) matches Some(eps) && count_matching(
            eps,
            CONSTRUCTOR_ENTRY_POINT_SELECTOR,
        ) == 1 && !run.aborts),
        r matches Ok(info) ==> ({
            let bound = StateView {
                storage: old(state).view_state().storage,
                address_to_class: old(state).view_state().address_to_class.insert(
                    deployed_contract_address,
                    class_hash,
                ),
            };
            &&& info.call.entry_point_selector == CONSTRUCTOR_ENTRY_POINT_SELECTOR
            &&& info.call.calldata@ == constructor_calldata@
            &&& info.call.storage_address == deployed_contract_address
            &&& info.call.caller_address == deployer_address
            &&& info.execution.retdata.0@ == run.retdata@
            &&& events_view(info.events@) == events_of(run.syscalls@)
            &&& messages_view(info.l2_to_l1_messages@) == messages_of(run.syscalls@)
            &&& final(state).view_state() == apply_syscalls(
                bound,
                deployed_contract_address,
                run.syscalls@,
            )
        }),
{
    // Register the address-to-class binding before calling the constructor,
    // so that it is visible from it.
    state.set_class_hash_at(deployed_contract_address, class_hash);
    let ghost bound_state = *state;
    let call_entry_point = CallEntryPoint {
        entry_point_selector: CONSTRUCTOR_ENTRY_POINT_SELECTOR,
        calldata: constructor_calldata,
        storage_address: deployed_contract_address,
        caller_address: deployer_address,
    };
    let r = execute_entry_point_call(call_entry_point, class_hash, state, run, n_builtins);
    proof {
        assert(bound_state.view_state() =~= (StateView {
            storage: old(state).view_state().storage,
            address_to_class: old(state).view_state().address_to_class.insert(
                deployed_contract_address,
                class_hash,
            ),
        }));
        if r is Ok {
            lemma_apply_syscalls_bindings(
                bound_state.view_state(),
                deployed_contract_address,
                run.syscalls@,
            );
            assert(state.view_state().address_to_class[deployed_contract_address] == class_hash);
            assert(state.class_hash_value(deployed_contract_address) == class_hash);
        }
    }
    r
}

/// For all calls, altering the implicit-argument count observed at the
/// machine's final state — a program that shrinks or grows its implicit
/// region — causes a security validation failure at the implicit-argument
/// bounds check, never a silent pass.
pub proof fn lemma_implicit_args_tamper(
    vm: VirtualMachine,
    implicit_args: Seq<MaybeRelocatable>,
    implicit_args_end: Relocatable,
    syscall_ptr: Relocatable,
    ledger: Seq<(Relocatable, usize)>,
)
    requires
        builtins_final_stack_ok(vm, implicit_args_end),
        !implicit_args_length_ok(vm, implicit_args.len(), implicit_args_end),
    ensures
        validation_result(vm, implicit_args, implicit_args_end, syscall_ptr, ledger) == Err::<
            (),
            PostExecutionError,
        >(PostExecutionError::SecurityValidationError(SecurityCheck::ImplicitArgsSegments)),
{
}

/// For all calls, a syscall pointer not at segment offset zero fails the
/// syscall segment-start check.
pub proof fn lemma_syscall_start_tamper(
    vm: VirtualMachine,
    implicit_args: Seq<MaybeRelocatable>,
    implicit_args_end: Relocatable,
    syscall_ptr: Relocatable,
    ledger: Seq<(Relocatable, usize)>,
)
    requires
        builtins_final_stack_ok(vm, implicit_args_end),
        implicit_args_length_ok(vm, implicit_args.len(), implicit_args_end),
        implicit_args[0] matches MaybeRelocatable::RelocatableValue(p) && p.offset != 0,
    ensures
        validation_result(vm, implicit_args, implicit_args_end, syscall_ptr, ledger) == Err::<
            (),
            PostExecutionError,
        >(PostExecutionError::SecurityValidationError(SecurityCheck::SyscallSegmentStart)),
{
}

/// For all calls, a syscall end pointer inconsistent with the syscall
/// segment's actually-used size fails the syscall segment-size check.
pub proof fn lemma_syscall_size_tamper(
    vm: VirtualMachine,
    implicit_args: Seq<MaybeRelocatable>,
    implicit_args_end: Relocatable,
    syscall_ptr: Relocatable,
    ledger: Seq<(Relocatable, usize)>,
)
    requires
        builtins_final_stack_ok(vm, implicit_args_end),
        implicit_args_length_ok(vm, implicit_args.len(), implicit_args_end),
        syscall_start_ok(implicit_args[0]),
        ({
            let args_start = Relocatable {
                segment_index: pointer_after_builtins(vm, implicit_args_end).segment_index,
                offset: (pointer_after_builtins(vm, implicit_args_end).offset - 1) as usize,
            };
            vm.cell(args_start) matches Some(MaybeRelocatable::RelocatableValue(end_read))
                && !syscall_size_ok(vm, implicit_args[0]->RelocatableValue_0, end_read)
        }),
    ensures
        validation_result(vm, implicit_args, implicit_args_end, syscall_ptr, ledger) == Err::<
            (),
            PostExecutionError,
        >(PostExecutionError::SecurityValidationError(SecurityCheck::SyscallSegmentSize)),
{
}

/// For all read-only segments, declaring one length but the machine
/// recording another used size fails the read-only segment check: an under-
/// or over-read of any ledgered segment is rejected once every earlier
/// checkpoint has passed.
pub proof fn lemma_read_only_tamper(
    vm: VirtualMachine,
    implicit_args: Seq<MaybeRelocatable>,
    implicit_args_end: Relocatable,
    syscall_ptr: Relocatable,
    ledger: Seq<(Relocatable, usize)>,
)
    requires
        builtins_final_stack_ok(vm, implicit_args_end),
        implicit_args_length_ok(vm, implicit_args.len(), implicit_args_end),
        syscall_start_ok(implicit_args[0]),
        ({
            let args_start = Relocatable {
                segment_index: pointer_after_builtins(vm, implicit_args_end).segment_index,
                offset: (pointer_after_builtins(vm, implicit_args_end).offset - 1) as usize,
            };
            vm.cell(args_start) matches Some(MaybeRelocatable::RelocatableValue(end_read))
                && syscall_size_ok(vm, implicit_args[0]->RelocatableValue_0, end_read) && end_read
                == syscall_ptr
        }),
        !read_only_segments_ok(vm, ledger),
    ensures
        validation_result(vm, implicit_args, implicit_args_end, syscall_ptr, ledger) == Err::<
            (),
            PostExecutionError,
        >(PostExecutionError::SecurityValidationError(SecurityCheck::ReadOnlySegments)),
{
}

} // verus!

//! Error taxonomy of the execution core: resolution errors before any machine
//! memory is touched, machine faults during the run, security validation
//! failures after the run, and decoding errors at finalization.

use vstd::prelude::*;
use crate::memory::MaybeRelocatable;
use crate::state::ClassHash;

verus! {

/// The six checkpoints of the post-execution security validation protocol,
/// in the order they run. Each failure is surfaced with the checkpoint that
/// caught it.
#[derive(Clone, Copy, Debug, PartialEq, Eq, Structural)]
pub enum SecurityCheck {
    BuiltinFinalStack,
    ImplicitArgsSegments,
    SyscallSegmentStart,
    SyscallSegmentSize,
    SyscallSegmentEnd,
    ReadOnlySegments,
}

/// A fault raised by the machine's memory bookkeeping.
#[derive(Clone, Copy, Debug, PartialEq, Eq, Structural)]
pub enum MemoryError {
    /// A load or access named a segment the machine has not allocated, or an
    /// offset outside the segment's used range.
    InvalidAddress,
    /// A read found an unset cell.
    MissingCell,
    /// A read expected a relocatable pointer but found a value cell or an
    /// unset cell.
    ExpectedRelocatable,
}

/// A resolution error, surfaced before any machine memory is touched.
#[derive(Clone, Copy, Debug, PartialEq, Eq, Structural)]
pub enum PreExecutionError {
    /// The state store holds no contract class under this identifier.
    ClassNotFound(ClassHash),
    /// The class's program metadata names no entry point with the requested
    /// selector.
    EntryPointNotFound(u128),
    /// The class's program metadata names more than one entry point with the
    /// requested selector.
    DuplicateEntryPoint(u128),
}

/// A machine-level fault during the run: the call is rejected, never retried.
#[derive(Clone, Copy, Debug, PartialEq, Eq, Structural)]
pub enum VirtualMachineExecutionError {
    /// The executed program aborted or faulted.
    Aborted,
}

/// A failure after the machine ran: a security validation failure at one of
/// the six checkpoints, or a malformed final state found while decoding.
#[derive(Clone, Copy, Debug, PartialEq, Eq, Structural)]
pub enum PostExecutionError {
    /// One of the six security checks failed; the label names the checkpoint.
    SecurityValidationError(SecurityCheck),
    /// A return-data cell held a pointer where a value was expected.
    ExpectedInteger(MaybeRelocatable),
    /// A return-data cell was unset.
    NoneInMemoryRange,
    /// The declared return-data length does not fit the machine's address
    /// space.
    RetdataSizeOutOfRange(u128),
    /// A machine memory fault while reading the final state.
    MemoryError(MemoryError),
}

/// Any failure of one entry-point call, as surfaced to the caller.
#[derive(Clone, Copy, Debug, PartialEq, Eq, Structural)]
pub enum EntryPointExecutionError {
    PreExecutionError(PreExecutionError),
    VirtualMachineExecutionError(VirtualMachineExecutionError),
    PostExecutionError(PostExecutionError),
}

} // verus!

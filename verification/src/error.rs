//! The errors that memory operations report.
use vstd::prelude::*;
use crate::pointer::MemoryPointer;
use crate::lock::{AccessKind, Lock};
use crate::allocation::MemoryKind;

verus! {

/// Why a memory operation failed.
#[derive(Clone, Debug)]
pub enum EvalError {
    OutOfMemory { allocation_size: u64, memory_size: u64, memory_usage: u64 },
    ReallocateNonBasePtr,
    ReallocatedWrongMemoryKind(MemoryKind, MemoryKind),
    DeallocateNonBasePtr,
    DeallocatedFunction(MemoryKind),
    DeallocatedWrongMemoryKind(MemoryKind, MemoryKind),
    DoubleFree,
    DeallocatedLockedMemory { ptr: MemoryPointer, lock: Lock },
    IncorrectAllocationInformation,
    InvalidNullPointerUsage,
    ReadUndefBytes,
    ReadBytesAsPointer,
    AlignmentCheckFailed { has: u64, required: u64 },
    PointerOutOfBounds { ptr: MemoryPointer, access: bool, allocation_size: u64 },
    MemoryLockViolation {
        ptr: MemoryPointer,
        len: u64,
        frame: usize,
        access: AccessKind,
        lock: Lock,
    },
    MemoryAcquireConflict { ptr: MemoryPointer, len: u64, kind: AccessKind, lock: Lock },
    InvalidMemoryLockRelease { ptr: MemoryPointer, len: u64, frame: usize, lock: Lock },
    DerefFunctionPointer,
    DanglingPointerDeref,
    ModifiedConstantMemory,
    InvalidFunctionPointer,
    ExecuteMemory,
    ReadPointerAsBytes,
    OverflowingMath,
    UnterminatedCString(MemoryPointer),
    CopyNonoverlappingOverlapping,
    MachineRefusedStatic(u64),
}

} // verus!

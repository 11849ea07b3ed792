//! Faults that abort an execution cycle.

use vstd::prelude::*;

verus! {

/// The kinds of fault the machine can report. Every fault is fatal to the
/// current cycle: the execution loop stops and reports it.
#[derive(Debug, Clone, Copy, PartialEq, Eq, Structural)]
pub enum ExceptionType {
    /// A memory access, jump or call target beyond the 4096-byte address
    /// space, or a ROM that would overflow it.
    AddressOutOfRange,
    /// A call past the 16-slot stack capacity, or a return with an empty
    /// stack.
    StackPointerOutOfRange,
    /// A decoded register or key operand outside `0..16`.
    BadArgument,
    /// An opcode word that matches no entry of the instruction table.
    BadInstruction,
    /// A ROM that could not be read from storage.
    IoFault,
}

/// A reported fault.
#[derive(Debug, Clone, Copy, PartialEq, Eq, Structural)]
pub struct Exception {
    pub exception_type: ExceptionType,
}

impl Exception {
    pub fn new(p0: ExceptionType) -> (e: Exception)
        ensures
            e.exception_type == p0,
    {
        Exception { exception_type: p0 }
    }
}

} // verus!

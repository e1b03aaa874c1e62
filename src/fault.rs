//! Why a run stopped without success.
use vstd::prelude::*;

verus! {

#[derive(Clone, Copy, Debug, PartialEq, Eq, Structural)]
pub enum Failure {
    /// An opcode needed more operands than the stack held.
    StackUnderflow,
    /// A push would have taken the stack past its bound.
    StackOverflow,
    /// A JUMP or JUMPI target that is not a valid destination.
    InvalidJumpDestination,
    /// A context opcode ran while its transaction or block was absent.
    MissingExecutionContext,
    /// A context field that is not a hexadecimal number of at most 256 bits.
    InvalidContextValue,
    /// The INVALID opcode ran.
    ExplicitFault,
    /// An access that would take memory past `MEMORY_LIMIT` (16 MiB), a
    /// resource ceiling of this interpreter rather than a rule of the machine.
    MemoryLimitExceeded,
    /// The run took more steps than the ceiling it was given.
    StepLimitExceeded,
}

} // verus!

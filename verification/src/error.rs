use vstd::prelude::*;

use crate::instruction::Instruction;

verus! {

/// Why a machine operation was refused. Every failure is terminal for the
/// current run: the operation that reports it leaves the machine untouched.
#[derive(Clone, Copy, Debug, PartialEq, Eq, Structural)]
pub enum EmulatorError {
    /// The opcode matches no instruction pattern.
    Decode(u16),
    /// A call was issued while the call stack already held its sixteen entries.
    StackOverflow,
    /// A return was issued while the call stack was empty.
    StackUnderflow,
    /// The instruction carries operands of a kind its operation has no
    /// meaning for.
    OperandShape(Instruction),
    /// What was to be loaded does not fit the machine: a program longer
    /// than the memory after the load address, or a snapshot that is not one.
    Load,
    /// An access fell outside memory, or an address left the 16-bit range.
    ExecutionFault,
}

} // verus!

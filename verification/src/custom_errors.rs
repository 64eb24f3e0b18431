//! The ways in which loading a program or executing an instruction can fail.
use vstd::prelude::*;

verus! {

/// A 16-bit word that matches no instruction of the machine.
///
/// `pc` is the program counter that the reporting stage held; `instruction`
/// is the offending word.
#[derive(Debug, Clone, Copy, PartialEq, Eq, Structural)]
pub struct NonUsedInstructionError {
    pub pc: u16,
    pub instruction: u16,
}

/// The player asked to leave: the window was closed or Escape was pressed.
#[derive(Debug, Clone, Copy, PartialEq, Eq, Structural)]
pub struct QuitGameError;

/// A failed access to the byte store.
#[derive(Debug, Clone, Copy, PartialEq, Eq, Structural)]
pub enum MemoryError {
    /// The address lies outside the store.
    OutOfBounds,
    /// The program image does not fit between the load address and the end
    /// of the store.
    RomTooLarge,
}

/// A fatal condition met while executing one instruction.
#[derive(Debug, Clone, Copy, PartialEq, Eq, Structural)]
pub enum ExecutionError {
    /// The fetched word is no instruction.
    UnimplementedInstruction(NonUsedInstructionError),
    /// A return was executed with an empty call stack.
    StackUnderflow,
    /// The instruction would read or write past the end of memory.
    OutOfBounds,
}

} // verus!

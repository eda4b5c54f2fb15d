//! The fatal conditions an instruction can run into. Every one of them is
//! surfaced to the driver as a typed value; no verified function panics.

use vstd::prelude::*;

verus! {

/// A condition that stops execution of the current instruction.
///
/// Each variant carries the diagnostic context the driver needs to report
/// the halt. An instruction that fails with one of these has mutated
/// nothing: the machine is exactly as it was before the step.
#[derive(Clone, Copy, Debug, PartialEq, Eq, Structural)]
pub enum Chip8Error {
    /// Dispatch found no matching opcode/operand combination.
    UnsupportedInstruction { pc: u16, instruction: u16 },
    /// A read or write address resolved outside the backing store. For a
    /// block operation (sprite fetch, BCD, register block) the reported
    /// address is the first address of the access range that lies outside
    /// the store.
    MemoryOutOfBounds { address: u16 },
    /// A return was executed with no pending call frame.
    CallStackUnderflow,
    /// A call was executed at maximum nesting depth.
    CallStackOverflow,
}

} // verus!

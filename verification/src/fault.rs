use vstd::prelude::*;

verus! {

/// A condition that ends a session. No operation that reports a fault has
/// changed the state it was applied to.
#[derive(Debug, Clone, Copy, PartialEq, Eq, Structural)]
pub enum Fault {
    /// An access to a memory address above `0xFFF`.
    MemoryOutOfRange,
    /// A push onto a call stack that already holds sixteen return addresses.
    StackOverflow,
    /// A pop from an empty call stack.
    StackUnderflow,
    /// An opcode outside the instruction set, met under the strict policy.
    UnknownOpcode(u16),
}

} // verus!

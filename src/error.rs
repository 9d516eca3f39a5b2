use vstd::prelude::*;

verus! {

/// Everything that loading a program, pressing a key or executing one step can
/// report to the host.
#[derive(Clone, Copy, Debug, PartialEq, Eq, Structural)]
pub enum Chip8Error {
    /// The program does not fit between the program start and the end of memory.
    MemoryOverflow,
    /// A key index outside the sixteen keys of the keypad.
    IndexOutOfRange,
    /// A call with all sixteen stack entries in use.
    StackOverflow,
    /// A return with an empty stack.
    StackUnderflow,
    /// A fetch or a memory access past the end of memory.
    AddressOutOfRange,
    /// An instruction word with no defined meaning.
    UnsupportedInstruction(u16),
}

} // verus!

use vstd::prelude::*;

verus! {

/// Why one instruction, or a load, could not be carried out.
#[derive(Clone, Copy, Debug, PartialEq, Eq, Structural)]
pub enum EmuError {
    /// A read or write outside the 4096-byte address space, including an
    /// instruction fetch past its end.
    MemoryFault,
    /// A call with all sixteen stack slots in use.
    StackOverflow,
    /// A return with an empty stack.
    StackUnderflow,
    /// A program too large to fit between 0x200 and the end of memory.
    CapacityExceeded,
    /// An opcode that no instruction pattern matches.
    UnknownOpcode { op: u16 },
    /// A key instruction whose register names a key above 0xF.
    InvalidKey { key: u8 },
}

} // verus!

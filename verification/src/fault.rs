use vstd::prelude::*;

verus! {

/// The closed set of unrecoverable conditions an interpreter run can surface.
/// Every one of them terminates the current machine instance; there is no
/// internal retry.
#[derive(Clone, Copy, Debug, PartialEq, Eq, Structural)]
pub enum Fault {
    /// A decoded opcode class or sub-opcode has no defined behavior.
    UnimplementedOpcode,
    /// An opcode that structurally requires a zero low nibble was given a
    /// nonzero one.
    InvalidEncoding,
    /// A call was executed while the call stack was already full.
    StackOverflow,
    /// A return was executed while the call stack was already empty.
    StackUnderflow,
    /// A fetch, sprite-row read, or screen row write addressed outside the
    /// owning container's bounds.
    MemoryOutOfBounds,
    /// A program image supplied to the loader exceeds the program region.
    LoadOversized,
}

} // verus!

use vstd::prelude::*;

verus! {

/// Why an activation chain was aborted.
#[derive(Clone, Copy, Debug, PartialEq, Eq, Structural)]
pub enum FaultKind {
    /// A pop below the current frame's stack boundary.
    StackUnderflow,
    /// A read or write of an undeclared register slot.
    RegisterAbsent,
    /// A read of an empty constant-table slot.
    ConstantAbsent,
    /// An operator applied to incompatible values, a write that violates a
    /// slot's declared type, or a write to a constant slot.
    TypeMismatch,
    /// A type index or name missing from the type registry.
    UnknownType,
    /// A jump label missing from the jump table.
    UnresolvedJump,
    /// A `Call` whose callee is not a function value.
    NotAFunction,
    /// An array or string index past the end, or a handle to nothing.
    IndexOutOfBounds,
    /// An argument count that differs from the function's arity.
    ArityMismatch,
    /// An arithmetic result outside the range of its type.
    Overflow,
    /// A division by zero.
    DivideByZero,
    /// A power with a negative exponent.
    NegativeExponent,
    /// A write to a locked chunk.
    ChunkLocked,
    /// Execution of a chunk that was never locked.
    ChunkUnlocked,
    /// The step budget of an execution ran out.
    StepLimit,
}

/// A fault together with where it happened: the program counter of the
/// offending instruction and the chunk it belongs to (`None` for the chunk
/// handed to `execute_chunk`, `Some(f)` for the body of function `f`).
#[derive(Clone, Copy, Debug, PartialEq, Eq, Structural)]
pub struct Fault {
    pub kind: FaultKind,
    pub pc: usize,
    pub function: Option<usize>,
}

} // verus!

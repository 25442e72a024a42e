use vstd::prelude::*;

verus! {

/// What can go wrong while reading or lowering an instruction.
#[derive(Debug, Clone, Copy, PartialEq, Eq, Structural)]
pub enum MCAsmError {
    /// A literal does not fit into a scoreboard value.
    NarrowingConversion,
    /// The destination cannot be assigned to.
    InvalidAssignment,
    /// The line holds no word at all.
    EmptyLineGiven,
    /// The instruction lacks operands.
    TooFewOperand,
    /// An operand is neither a register nor an integer where one is needed.
    InvalidOperand,
    /// The first word names no instruction.
    UnknownMnemonic,
    /// A path names an unknown value type.
    UnknownType,
    /// A register is not written `objective::holder`.
    InvalidScoreboard,
    /// A storage reference is not written `namespace:name`.
    InvalidStorage,
    /// A magnification is not an unsigned 32-bit integer.
    CantImplicateAsUnsignedInteger,
}

} // verus!

//! The fatal conditions of the arithmetic engine, reported as values.
//!
//! Every condition is a programming error on the caller's side, never a
//! recoverable wrap-around: an operation that detects one returns the
//! matching variant at once and produces no partial result.

use vstd::prelude::*;

verus! {

/// A contract violation detected by a numeric operation.
#[derive(Clone, Copy, Debug, PartialEq, Eq, Structural)]
pub enum NumError {
    /// Operands to addition or subtraction have different bit widths.
    WidthMismatch,
    /// Signed addition or subtraction produced a sum outside the range that
    /// the common width can encode.
    SignedOverflow,
    /// An unsigned operand, or the result of an unsigned addition, has its
    /// top bit set where the contract requires it clear.
    UnsignedOverflow,
    /// An unsigned subtraction would need a negative result: the subtrahend
    /// exceeds the minuend.
    UnsignedUnderflow,
    /// A bit query named a position beyond the width of the vector.
    UninitializedBitAccess,
    /// A requested width is too narrow to hold a magnitude and a sign bit.
    DegenerateWidth,
}

} // verus!

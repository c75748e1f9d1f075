//! Fixed-width two's-complement integer arithmetic over an explicit bit array.
//!
//! Two numeric kinds are offered, both stored as a sequence of boolean flags
//! (index 0 is the least-significant bit) inside a `bit_vec::BitVec`:
//!
//! - [`signed::SignedInt`]: the top bit is a sign bit under the standard
//!   two's-complement interpretation.
//! - [`unsigned::UnsignedInt`]: the top bit participates in magnitude; the
//!   arithmetic contracts demand that it stays clear.
//!
//! Construction decomposes a native integer bit by bit, addition is a
//! ripple-carry adder, subtraction is addition of the two's complement, and
//! ordering compares bit positions from the most significant downward. Every
//! fatal condition (mismatched widths, overflow, underflow, degenerate widths,
//! out-of-range bit queries) is reported through [`error::NumError`] instead
//! of a panic, so callers can test failure paths.

pub mod bitarray;
pub mod error;
pub mod model;
pub mod ripple;
pub mod signed;
pub mod unsigned;
pub mod laws;

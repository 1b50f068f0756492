//! The ways a hashing call can fail.
use vstd::prelude::*;
use crate::field::U256;

verus! {

/// Every failure is reported to the caller as a value of this type.
#[derive(Debug, PartialEq, Eq)]
pub enum PoseidonError {
    /// An empty (or otherwise malformed) multi-element input; holds its length.
    InvalidInputLength(usize),
    /// An input at or above the field modulus; holds the input.
    FieldElementTooLarge(U256),
    /// The call buffer is shorter than four bytes or names no known operation.
    InvalidSelector,
    /// The arguments after the selector are not a canonical encoding.
    AbiDecodeError(String),
}

} // verus!

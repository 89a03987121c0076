//! The ways in which building, sharing or decoding an index can fail.

use vstd::prelude::*;

verus! {

/// Why an operation on an index failed.
#[derive(Clone, Copy, Debug, PartialEq, Eq, Structural)]
pub enum IndexError {
    /// The requested domain size is not a power of two, or is larger than
    /// the field's largest power-of-two subgroup.
    InvalidDomainSize,
    /// No pair of shifts was found among the candidates.
    ShiftSamplingExhausted,
    /// The byte stream is truncated, malformed or has bytes left over.
    DeserializationError,
    /// No reference to the string behind the handle can be taken: the
    /// string was released or never entered, or its count is full.
    UrsNotLive,
}

} // verus!

//! Errors of the record codec.
use vstd::prelude::*;

verus! {

/// Why a record, or a run of records, could not be decoded or encoded.
#[derive(Clone, Copy, Debug, PartialEq, Eq, Structural)]
pub enum CodecError {
    /// A byte buffer does not have the length that the records need.
    SizeMismatch { expected: usize, actual: usize },
    /// A list of structures does not have the number of elements asked for.
    CountMismatch { expected: usize, actual: usize },
    /// An enemy id lies outside what the record's id byte can hold.
    ValueOutOfRange,
}

} // verus!

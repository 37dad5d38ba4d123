//! Failure taxonomy of the codec.

use vstd::prelude::*;

verus! {

/// Every failure the codec or the boundary crossing can signal.
///
/// Encode and decode failures are surfaced immediately to the caller;
/// none is silently swallowed or replaced by a default value.
#[derive(Clone, Copy, Debug, PartialEq, Eq, Structural)]
pub enum Error {
    /// The records handed to an encoder do not fit the fixed capacity of
    /// the buffer: a schema or capacity-constant mismatch, not a normal
    /// runtime condition.
    EncodingOverflow,
    /// The buffer handed to a decoder is shorter than the fixed size it
    /// must have: a corrupted or mismatched-version buffer.
    DecodingTruncated,
    /// A slot's bytes do not form a structurally valid record, such as a
    /// role tag outside the two recognised values.
    DecodingMalformed,
    /// The host rejected the data passed across the boundary; the codec
    /// has no knowledge of why.
    BoundaryCallFailure,
}

} // verus!

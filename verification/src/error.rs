//! Errors surfaced by the wire codec and the zero-copy layer.

use vstd::prelude::*;

verus! {

/// A typed failure reason.
///
/// Every decoding or validation failure is returned to the caller as one of
/// these; nothing is silently swallowed and nothing panics.
#[derive(Debug, Clone, Copy, PartialEq, Eq, Structural)]
pub enum Error {
    /// A read requested more bytes than remain in the input.
    BufferExhausted,
    /// A decoded variable-length value exceeds the target integer width.
    IntegerOverflow,
    /// A decoder expected a value of one kind and found another.
    KindMismatch,
    /// A zero-copy load address does not satisfy the required alignment.
    AlignmentViolation,
    /// A zero-copy reference range exceeds the buffer length.
    OutOfBounds,
    /// Zero-copy validation rejected a type's byte contents.
    InvalidBitPattern,
}

} // verus!

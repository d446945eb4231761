//! Error types of the crate.

use vstd::prelude::*;

verus! {

/// Error of the scalar reader: a peek or read would run past the end of the
/// buffer.
#[derive(Debug, PartialEq, Eq, Clone, Copy, Structural)]
pub enum DviousError {
    IndexOutOfBoundsError,
}

/// Result type of the scalar reader.
pub type DviousResult<T> = Result<T, DviousError>;

/// Terminal error of a decode call.
///
/// `offset` is always the buffer offset of the leading byte of the
/// instruction whose decoding failed.
#[derive(Debug, PartialEq, Eq, Clone, Copy, Structural)]
pub enum DecodeError {
    /// A field or payload read would run past the end of the buffer.
    OutOfBounds { offset: usize },
    /// The leading byte is not in the dispatch table; `opcode` is that byte.
    UnknownOpcode { opcode: u8, offset: usize },
}

} // verus!

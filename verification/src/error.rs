//! The error type shared by every decode operation of the crate.

use vstd::prelude::*;

verus! {

/// Why a decode call could not produce a value.
///
/// `BufferToShort(n)` is the recoverable streaming condition: exactly `n`
/// more bytes are needed before the same call can succeed, so a caller can
/// await that many bytes and retry. `WrongValue` reports an out-of-range
/// discriminant byte (message tag or status byte) and is not helped by
/// more input.
#[derive(Debug, Clone, PartialEq, Eq, Structural)]
pub enum DeserializeError {
    BufferToShort(usize),
    WrongValue,
}

} // verus!

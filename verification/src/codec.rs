//! The two traits every wire type of the crate implements.
//!
//! The trait declarations carry no contracts of their own: each
//! implementation states its exact encoding and decoding behaviour in
//! its own `ensures`, over the spec functions of the type's module, and
//! every call site in this crate resolves statically to one of those
//! implementations.

use vstd::prelude::*;

use crate::error::DeserializeError;

verus! {

/// Fixed-format binary encoding into a fresh byte vector.
pub trait Serialize {
    fn serialize(&self) -> Vec<u8>;
}

/// Decoding from the front of a byte buffer.
///
/// On success an implementation returns the decoded value and the exact
/// number of leading bytes it consumed; bytes past that count are left
/// for the caller, so several records can sit back-to-back in one buffer.
pub trait Deserialize {
    type Item;

    fn deserialize(buffer: &[u8]) -> Result<(Self::Item, usize), DeserializeError>;
}

} // verus!

//! The one-byte acquisition control signal.

use vstd::prelude::*;

use crate::codec::{Deserialize, Serialize};
use crate::error::DeserializeError;

verus! {

/// Start or stop the instrument's acquisition. Encoded as a single
/// byte: `0` for `Start`, `1` for `Stop`; every other byte value is an
/// invalid discriminant.
#[derive(Debug, PartialEq, Eq, Structural)]
pub enum Status {
    Start,
    Stop,
}

/// The 1-byte encoding of a status signal.
pub open spec fn spec_status_bytes(s: Status) -> Seq<u8> {
    match s {
        Status::Start => seq![0u8],
        Status::Stop => seq![1u8],
    }
}

/// What decoding a buffer as a status signal yields: the signal and the
/// one byte consumed, `BufferToShort(1)` on an empty buffer, and
/// `WrongValue` on any leading byte other than `0` or `1`.
pub open spec fn spec_status_deserialized(b: Seq<u8>) -> Result<(Status, int), DeserializeError> {
    if b.len() < 1 {
        Err(DeserializeError::BufferToShort(1))
    } else if b[0] == 0 {
        Ok((Status::Start, 1))
    } else if b[0] == 1 {
        Ok((Status::Stop, 1))
    } else {
        Err(DeserializeError::WrongValue)
    }
}

impl Serialize for Status {
    /// Encode the signal as its single discriminant byte.
    fn serialize(&self) -> (r: Vec<u8>)
        ensures
            r@ == spec_status_bytes(*self),
            r@.len() == 1,
    {
        let mut ser_data: Vec<u8> = Vec::with_capacity(1);
        match self {
            Status::Start => ser_data.push(0),
            Status::Stop => ser_data.push(1),
        }
        proof {
            assert(ser_data@ =~= spec_status_bytes(*self));
        }
        ser_data
    }
}

impl Deserialize for Status {
    type Item = Status;

    /// Decode a status signal from the front of `buffer`, consuming one
    /// byte; longer buffers are accepted and the rest is left untouched.
    fn deserialize(buffer: &[u8]) -> (r: Result<(Self::Item, usize), DeserializeError>)
        ensures
            (match r {
                Ok((status, consumed)) => spec_status_deserialized(buffer@) == Ok::<
                    (Status, int),
                    DeserializeError,
                >((status, consumed as int)),
                Err(e) => spec_status_deserialized(buffer@) == Err::<
                    (Status, int),
                    DeserializeError,
                >(e),
            }),
    {
        if buffer.len() < 1 {
            return Err(DeserializeError::BufferToShort(1));
        }
        match buffer[0] {
            0 => Ok((Status::Start, 1)),
            1 => Ok((Status::Stop, 1)),
            _ => Err(DeserializeError::WrongValue),
        }
    }
}

/// A status round-trips: decoding its encoding gives the same signal
/// back and consumes the whole 1-byte encoding.
pub proof fn lemma_status_round_trip(s: Status)
    ensures
        spec_status_deserialized(spec_status_bytes(s)) == Ok::<(Status, int), DeserializeError>(
            (s, 1),
        ),
{
}

/// Decoding a buffer that holds neither discriminant byte fails with
/// `WrongValue`, never with a wrong signal.
pub proof fn lemma_status_invalid_discriminant(b: Seq<u8>)
    requires
        b.len() >= 1,
        b[0] != 0,
        b[0] != 1,
    ensures
        spec_status_deserialized(b) == Err::<(Status, int), DeserializeError>(
            DeserializeError::WrongValue,
        ),
{
}

/// Decoding an empty buffer reports exactly the one missing byte.
pub proof fn lemma_status_truncated(b: Seq<u8>)
    requires
        b.len() < 1,
    ensures
        spec_status_deserialized(b) == Err::<(Status, int), DeserializeError>(
            DeserializeError::BufferToShort(1),
        ),
{
}

} // verus!

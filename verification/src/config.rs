//! Detector tuning parameters sent to the instrument.

use vstd::prelude::*;

use crate::be_bytes::{
    lemma_u64_be_bytes_round_trip, push_u64_be, read_u64_be, spec_u64_from_be_bytes,
    spec_u64_to_be_bytes,
};
use crate::codec::{Deserialize, Serialize};
use crate::error::DeserializeError;

verus! {

/// The shaping-filter configuration: amplitude threshold, dead time in
/// ticks, the two filter window lengths and the secondary threshold.
/// Encoded as five big-endian `u64` fields, 40 bytes in all.
#[derive(Debug, PartialEq, Eq, Structural)]
pub struct FilterConfig {
    pub pthresh: u64,
    pub tdead: u64,
    pub k: u64,
    pub l: u64,
    pub m: u64,
}

/// The canonical 40-byte encoding: the five fields big-endian, in
/// declared order.
pub open spec fn spec_config_bytes(c: FilterConfig) -> Seq<u8> {
    spec_u64_to_be_bytes(c.pthresh) + spec_u64_to_be_bytes(c.tdead) + spec_u64_to_be_bytes(c.k)
        + spec_u64_to_be_bytes(c.l) + spec_u64_to_be_bytes(c.m)
}

/// The configuration whose canonical encoding opens the buffer; only
/// the first 40 bytes are read.
pub open spec fn spec_config_of(b: Seq<u8>) -> FilterConfig
    recommends
        b.len() >= 40,
{
    FilterConfig {
        pthresh: spec_u64_from_be_bytes(b.subrange(0, 8)),
        tdead: spec_u64_from_be_bytes(b.subrange(8, 16)),
        k: spec_u64_from_be_bytes(b.subrange(16, 24)),
        l: spec_u64_from_be_bytes(b.subrange(24, 32)),
        m: spec_u64_from_be_bytes(b.subrange(32, 40)),
    }
}

/// What decoding a buffer as a configuration record yields: the
/// configuration of the first 40 bytes and the count 40, or the exact
/// shortfall when fewer than 40 bytes are present.
pub open spec fn spec_config_deserialized(b: Seq<u8>) -> Result<
    (FilterConfig, int),
    DeserializeError,
> {
    if b.len() < 40 {
        Err(DeserializeError::BufferToShort((40 - b.len()) as usize))
    } else {
        Ok((spec_config_of(b), 40))
    }
}

/// `spec_config_of` reads only the first 40 bytes, so buffers that
/// agree there decode to the same configuration.
pub proof fn lemma_config_of_depends_on_prefix(b: Seq<u8>, c: Seq<u8>)
    requires
        b.len() >= 40,
        c.len() >= 40,
        forall|i: int| 0 <= i < 40 ==> b[i] == c[i],
    ensures
        spec_config_of(b) == spec_config_of(c),
{
    assert(b.subrange(0, 8) =~= c.subrange(0, 8));
    assert(b.subrange(8, 16) =~= c.subrange(8, 16));
    assert(b.subrange(16, 24) =~= c.subrange(16, 24));
    assert(b.subrange(24, 32) =~= c.subrange(24, 32));
    assert(b.subrange(32, 40) =~= c.subrange(32, 40));
}

/// Append the canonical 40-byte encoding of a configuration to a
/// buffer.
pub(crate) fn push_config_bytes(out: &mut Vec<u8>, c: &FilterConfig)
    ensures
        final(out)@ == old(out)@ + spec_config_bytes(*c),
{
    push_u64_be(out, c.pthresh);
    push_u64_be(out, c.tdead);
    push_u64_be(out, c.k);
    push_u64_be(out, c.l);
    push_u64_be(out, c.m);
    assert(out@ =~= old(out)@ + spec_config_bytes(*c));
}

/// Decode the canonical 40-byte configuration record that starts at
/// `offset`.
pub(crate) fn read_config_at(buffer: &[u8], offset: usize) -> (config: FilterConfig)
    requires
        offset + 40 <= buffer@.len(),
    ensures
        config == spec_config_of(buffer@.subrange(offset as int, offset as int + 40)),
{
    // the length call bounds buffer@.len() by usize::MAX, so the offset
    // sums below cannot overflow
    let len = buffer.len();
    assert(offset + 40 <= len);
    let pthresh = read_u64_be(buffer, offset);
    let tdead = read_u64_be(buffer, offset + 8);
    let k = read_u64_be(buffer, offset + 16);
    let l = read_u64_be(buffer, offset + 24);
    let m = read_u64_be(buffer, offset + 32);
    proof {
        let s = buffer@.subrange(offset as int, offset as int + 40);
        assert(s.subrange(0, 8) =~= buffer@.subrange(offset as int, offset as int + 8));
        assert(s.subrange(8, 16) =~= buffer@.subrange(offset as int + 8, offset as int + 16));
        assert(s.subrange(16, 24) =~= buffer@.subrange(offset as int + 16, offset as int + 24));
        assert(s.subrange(24, 32) =~= buffer@.subrange(offset as int + 24, offset as int + 32));
        assert(s.subrange(32, 40) =~= buffer@.subrange(offset as int + 32, offset as int + 40));
    }
    FilterConfig { pthresh, tdead, k, l, m }
}

impl Serialize for FilterConfig {
    /// Encode the configuration as its canonical 40-byte big-endian
    /// record.
    fn serialize(&self) -> (r: Vec<u8>)
        ensures
            r@ == spec_config_bytes(*self),
            r@.len() == 40,
    {
        let mut ser_data: Vec<u8> = Vec::with_capacity(40);
        push_config_bytes(&mut ser_data, self);
        ser_data
    }
}

impl Deserialize for FilterConfig {
    type Item = FilterConfig;

    /// Decode a canonical configuration record from the front of
    /// `buffer`, consuming exactly 40 bytes; longer buffers are
    /// accepted and the rest is left untouched.
    fn deserialize(buffer: &[u8]) -> (r: Result<(Self::Item, usize), DeserializeError>)
        ensures
            (match r {
                Ok((config, consumed)) => spec_config_deserialized(buffer@) == Ok::<
                    (FilterConfig, int),
                    DeserializeError,
                >((config, consumed as int)),
                Err(e) => spec_config_deserialized(buffer@) == Err::<
                    (FilterConfig, int),
                    DeserializeError,
                >(e),
            }),
    {
        if buffer.len() < 40 {
            Err(DeserializeError::BufferToShort(40 - buffer.len()))
        } else {
            let config = read_config_at(buffer, 0);
            proof {
                lemma_config_of_depends_on_prefix(buffer@.subrange(0, 40), buffer@);
            }
            Ok((config, 40))
        }
    }
}

/// A configuration round-trips: decoding its canonical encoding gives
/// the same configuration back and consumes the whole 40-byte record.
pub proof fn lemma_config_round_trip(c: FilterConfig)
    ensures
        spec_config_deserialized(spec_config_bytes(c)) == Ok::<
            (FilterConfig, int),
            DeserializeError,
        >((c, 40)),
{
    let b = spec_config_bytes(c);
    assert(b.subrange(0, 8) =~= spec_u64_to_be_bytes(c.pthresh));
    assert(b.subrange(8, 16) =~= spec_u64_to_be_bytes(c.tdead));
    assert(b.subrange(16, 24) =~= spec_u64_to_be_bytes(c.k));
    assert(b.subrange(24, 32) =~= spec_u64_to_be_bytes(c.l));
    assert(b.subrange(32, 40) =~= spec_u64_to_be_bytes(c.m));
    lemma_u64_be_bytes_round_trip(c.pthresh);
    lemma_u64_be_bytes_round_trip(c.tdead);
    lemma_u64_be_bytes_round_trip(c.k);
    lemma_u64_be_bytes_round_trip(c.l);
    lemma_u64_be_bytes_round_trip(c.m);
}

/// Decoding fewer than 40 bytes as a configuration record reports
/// exactly how many bytes are missing, and never yields a value.
pub proof fn lemma_config_truncated(b: Seq<u8>)
    requires
        b.len() < 40,
    ensures
        spec_config_deserialized(b) == Err::<(FilterConfig, int), DeserializeError>(
            DeserializeError::BufferToShort((40 - b.len()) as usize),
        ),
{
}

} // verus!

//! One detected pulse event, with its two wire representations: the
//! instrument's bit-packed 12-byte sensor-native record (input only)
//! and the canonical byte-aligned 18-byte big-endian record.

use vstd::bytes::{u16_to_le_bytes, u32_to_le_bytes, u64_to_le_bytes};
use vstd::bytes::{spec_u16_to_le_bytes, spec_u32_to_le_bytes, spec_u64_to_le_bytes};
use vstd::prelude::*;
use vstd::string::StringExecFns;

use crate::be_bytes::{
    lemma_u16_be_bytes_round_trip, lemma_u32_be_bytes_round_trip, lemma_u64_be_bytes_round_trip,
    push_u16_be, push_u32_be, push_u64_be, read_u16_be, read_u32_be, read_u64_be,
    spec_u16_from_be_bytes, spec_u16_to_be_bytes, spec_u32_from_be_bytes, spec_u32_to_be_bytes,
    spec_u64_from_be_bytes, spec_u64_to_be_bytes,
};
use crate::codec::{Deserialize, Serialize};
use crate::error::DeserializeError;
use crate::hexfmt::{hex_encode, spec_hex_bytes};

verus! {

/// One measured peak. The sensor delivers `timestamp` in 40 bits,
/// `peak_height` in 28 bits, `speed` in 10 bits and `cycle` in 18 bits;
/// the canonical wire format carries each field at full width.
#[derive(Debug, PartialEq, Eq, Structural, Clone)]
pub struct MeasuredPeak {
    pub timestamp: u64,
    pub peak_height: u32,
    pub speed: u16,
    pub cycle: u32,
}

// ---------------------------------------------------------------------
// Sensor-native record: bit layout of the 12-byte buffer.

/// Timestamp of a sensor-native record: bytes 0-4, byte `i` holding
/// bits `[8i, 8i+8)`.
pub open spec fn spec_raw_timestamp(b: Seq<u8>) -> u64
    recommends
        b.len() == 12,
{
    (b[0] as u64) | ((b[1] as u64) << 8) | ((b[2] as u64) << 16) | ((b[3] as u64) << 24) | ((
    b[4] as u64) << 32)
}

/// Cycle counter of a sensor-native record: low 16 bits from bytes 5-6,
/// the top 2 of its 18 bits from bits 0-1 of byte 7.
pub open spec fn spec_raw_cycle(b: Seq<u8>) -> u32
    recommends
        b.len() == 12,
{
    (b[5] as u32) | ((b[6] as u32) << 8) | (((b[7] & 0x03) as u32) << 16)
}

/// Speed of a sensor-native record: low 6 bits from bits 2-7 of byte 7,
/// bits 6-9 from bits 0-3 of byte 8.
pub open spec fn spec_raw_speed(b: Seq<u8>) -> u16
    recommends
        b.len() == 12,
{
    ((b[7] >> 2) as u16) | (((b[8] & 0x0f) as u16) << 6)
}

/// Peak height of a sensor-native record: bits 0-3 from bits 4-7 of
/// byte 8, the remaining 24 bits from bytes 9-11 at bit offset `4 + 8i`.
pub open spec fn spec_raw_peak_height(b: Seq<u8>) -> u32
    recommends
        b.len() == 12,
{
    ((b[8] >> 4) as u32) | ((b[9] as u32) << 4) | ((b[10] as u32) << 12) | ((b[11] as u32) << 20)
}

// ---------------------------------------------------------------------
// Canonical record: 18 bytes, all fields big-endian, in declared order.

/// The canonical 18-byte encoding: timestamp, peak height, speed and
/// cycle, each big-endian.
pub open spec fn spec_peak_bytes(p: MeasuredPeak) -> Seq<u8> {
    spec_u64_to_be_bytes(p.timestamp) + spec_u32_to_be_bytes(p.peak_height) + spec_u16_to_be_bytes(
        p.speed,
    ) + spec_u32_to_be_bytes(p.cycle)
}

/// The peak whose canonical encoding opens the buffer; only the first
/// 18 bytes are read.
pub open spec fn spec_peak_of(b: Seq<u8>) -> MeasuredPeak
    recommends
        b.len() >= 18,
{
    MeasuredPeak {
        timestamp: spec_u64_from_be_bytes(b.subrange(0, 8)),
        peak_height: spec_u32_from_be_bytes(b.subrange(8, 12)),
        speed: spec_u16_from_be_bytes(b.subrange(12, 14)),
        cycle: spec_u32_from_be_bytes(b.subrange(14, 18)),
    }
}

/// What decoding a buffer as a canonical peak record yields: the peak
/// of the first 18 bytes and the count 18, or the exact shortfall when
/// fewer than 18 bytes are present.
pub open spec fn spec_peak_deserialized(b: Seq<u8>) -> Result<
    (MeasuredPeak, int),
    DeserializeError,
> {
    if b.len() < 18 {
        Err(DeserializeError::BufferToShort((18 - b.len()) as usize))
    } else {
        Ok((spec_peak_of(b), 18))
    }
}

/// `spec_peak_of` reads only the first 18 bytes, so buffers that agree
/// there decode to the same peak.
pub proof fn lemma_peak_of_depends_on_prefix(b: Seq<u8>, c: Seq<u8>)
    requires
        b.len() >= 18,
        c.len() >= 18,
        forall|i: int| 0 <= i < 18 ==> b[i] == c[i],
    ensures
        spec_peak_of(b) == spec_peak_of(c),
{
    assert(b.subrange(0, 8) =~= c.subrange(0, 8));
    assert(b.subrange(8, 12) =~= c.subrange(8, 12));
    assert(b.subrange(12, 14) =~= c.subrange(12, 14));
    assert(b.subrange(14, 18) =~= c.subrange(14, 18));
}

impl MeasuredPeak {
    /// Unpack a sensor-native 12-byte record. The producer hands this
    /// function exactly 12 bytes; any other length is a contract
    /// violation, not a recoverable decode error.
    pub fn new(raw_data: &[u8]) -> (peak: MeasuredPeak)
        requires
            raw_data@.len() == 12,
        ensures
            peak.timestamp == spec_raw_timestamp(raw_data@),
            peak.cycle == spec_raw_cycle(raw_data@),
            peak.speed == spec_raw_speed(raw_data@),
            peak.peak_height == spec_raw_peak_height(raw_data@),
            peak.timestamp < 0x100_0000_0000,
            peak.cycle < 0x4_0000,
            peak.speed < 0x400,
            peak.peak_height < 0x1000_0000,
    {
        let timestamp: u64 = (raw_data[0] as u64) | ((raw_data[1] as u64) << 8) | ((
        raw_data[2] as u64) << 16) | ((raw_data[3] as u64) << 24) | ((raw_data[4] as u64) << 32);
        // the cycle count has two whole bytes and shares byte 7 with the speed
        let cycle: u32 = (raw_data[5] as u32) | ((raw_data[6] as u32) << 8) | (((raw_data[7]
            & 0x03) as u32) << 16);
        // the speed shares byte 7 with the cycle and byte 8 with the height
        let speed: u16 = ((raw_data[7] >> 2) as u16) | (((raw_data[8] & 0x0f) as u16) << 6);
        let peak_height: u32 = ((raw_data[8] >> 4) as u32) | ((raw_data[9] as u32) << 4) | ((
        raw_data[10] as u32) << 12) | ((raw_data[11] as u32) << 20);
        proof {
            let b0 = raw_data@[0];
            let b1 = raw_data@[1];
            let b2 = raw_data@[2];
            let b3 = raw_data@[3];
            let b4 = raw_data@[4];
            let b5 = raw_data@[5];
            let b6 = raw_data@[6];
            let b7 = raw_data@[7];
            let b8 = raw_data@[8];
            let b9 = raw_data@[9];
            let b10 = raw_data@[10];
            let b11 = raw_data@[11];
            assert((b0 as u64) | ((b1 as u64) << 8) | ((b2 as u64) << 16) | ((b3 as u64) << 24) | (
            (b4 as u64) << 32) < 0x100_0000_0000) by (bit_vector);
            assert((b5 as u32) | ((b6 as u32) << 8) | (((b7 & 0x03) as u32) << 16) < 0x4_0000)
                by (bit_vector);
            assert(((b7 >> 2) as u16) | (((b8 & 0x0f) as u16) << 6) < 0x400) by (bit_vector);
            assert(((b8 >> 4) as u32) | ((b9 as u32) << 4) | ((b10 as u32) << 12) | ((b11 as u32)
                << 20) < 0x1000_0000) by (bit_vector);
        }
        MeasuredPeak { timestamp, peak_height, speed, cycle }
    }

    /// Render the four fields as lowercase hexadecimal dumps of their
    /// little-endian bytes, separated by single spaces, in the order
    /// timestamp, peak height, cycle, speed.
    pub fn to_hex_string(&self) -> (r: String)
        ensures
            r@ == spec_peak_hex_chars(*self),
    {
        let ts_bytes = u64_to_le_bytes(self.timestamp);
        let mut out = hex_encode(ts_bytes.as_slice());
        let ph_bytes = u32_to_le_bytes(self.peak_height);
        let ph_hex = hex_encode(ph_bytes.as_slice());
        let cy_bytes = u32_to_le_bytes(self.cycle);
        let cy_hex = hex_encode(cy_bytes.as_slice());
        let sp_bytes = u16_to_le_bytes(self.speed);
        let sp_hex = hex_encode(sp_bytes.as_slice());
        out.append(" ");
        out.append(ph_hex.as_str());
        out.append(" ");
        out.append(cy_hex.as_str());
        out.append(" ");
        out.append(sp_hex.as_str());
        proof {
            reveal_strlit(" ");
            assert(out@ =~= spec_peak_hex_chars(*self));
        }
        out
    }
}

/// The text `to_hex_string` produces: the little-endian bytes of each
/// field in lowercase hexadecimal, space-separated, in the order
/// timestamp, peak height, cycle, speed.
pub open spec fn spec_peak_hex_chars(p: MeasuredPeak) -> Seq<char> {
    spec_hex_bytes(spec_u64_to_le_bytes(p.timestamp)) + seq![' '] + spec_hex_bytes(
        spec_u32_to_le_bytes(p.peak_height),
    ) + seq![' '] + spec_hex_bytes(spec_u32_to_le_bytes(p.cycle)) + seq![' '] + spec_hex_bytes(
        spec_u16_to_le_bytes(p.speed),
    )
}

/// Append the canonical 18-byte encoding of a peak to a buffer.
pub(crate) fn push_peak_bytes(out: &mut Vec<u8>, p: &MeasuredPeak)
    ensures
        final(out)@ == old(out)@ + spec_peak_bytes(*p),
{
    push_u64_be(out, p.timestamp);
    push_u32_be(out, p.peak_height);
    push_u16_be(out, p.speed);
    push_u32_be(out, p.cycle);
    assert(out@ =~= old(out)@ + spec_peak_bytes(*p));
}

/// Decode the canonical 18-byte peak record that starts at `offset`.
pub(crate) fn read_peak_at(buffer: &[u8], offset: usize) -> (peak: MeasuredPeak)
    requires
        offset + 18 <= buffer@.len(),
    ensures
        peak == spec_peak_of(buffer@.subrange(offset as int, offset as int + 18)),
{
    // the length call bounds buffer@.len() by usize::MAX, so the offset
    // sums below cannot overflow
    let len = buffer.len();
    assert(offset + 18 <= len);
    let timestamp = read_u64_be(buffer, offset);
    let peak_height = read_u32_be(buffer, offset + 8);
    let speed = read_u16_be(buffer, offset + 12);
    let cycle = read_u32_be(buffer, offset + 14);
    proof {
        let s = buffer@.subrange(offset as int, offset as int + 18);
        assert(s.subrange(0, 8) =~= buffer@.subrange(offset as int, offset as int + 8));
        assert(s.subrange(8, 12) =~= buffer@.subrange(offset as int + 8, offset as int + 12));
        assert(s.subrange(12, 14) =~= buffer@.subrange(offset as int + 12, offset as int + 14));
        assert(s.subrange(14, 18) =~= buffer@.subrange(offset as int + 14, offset as int + 18));
    }
    MeasuredPeak { timestamp, peak_height, speed, cycle }
}

impl Serialize for MeasuredPeak {
    /// Encode the peak as its canonical 18-byte big-endian record.
    fn serialize(&self) -> (r: Vec<u8>)
        ensures
            r@ == spec_peak_bytes(*self),
            r@.len() == 18,
    {
        let mut ser_data: Vec<u8> = Vec::with_capacity(18);
        push_peak_bytes(&mut ser_data, self);
        ser_data
    }
}

impl Deserialize for MeasuredPeak {
    type Item = MeasuredPeak;

    /// Decode a canonical peak record from the front of `buffer`,
    /// consuming exactly 18 bytes; longer buffers are accepted and the
    /// rest is left untouched.
    fn deserialize(buffer: &[u8]) -> (r: Result<(Self::Item, usize), DeserializeError>)
        ensures
            (match r {
                Ok((peak, consumed)) => spec_peak_deserialized(buffer@) == Ok::<
                    (MeasuredPeak, int),
                    DeserializeError,
                >((peak, consumed as int)),
                Err(e) => spec_peak_deserialized(buffer@) == Err::<
                    (MeasuredPeak, int),
                    DeserializeError,
                >(e),
            }),
    {
        if buffer.len() < 18 {
            Err(DeserializeError::BufferToShort(18 - buffer.len()))
        } else {
            let peak = read_peak_at(buffer, 0);
            proof {
                lemma_peak_of_depends_on_prefix(buffer@.subrange(0, 18), buffer@);
            }
            Ok((peak, 18))
        }
    }
}

/// A peak round-trips: decoding its canonical encoding gives the same
/// peak back and consumes the whole 18-byte record.
pub proof fn lemma_peak_round_trip(p: MeasuredPeak)
    ensures
        spec_peak_deserialized(spec_peak_bytes(p)) == Ok::<(MeasuredPeak, int), DeserializeError>(
            (p, 18),
        ),
{
    let b = spec_peak_bytes(p);
    assert(b.subrange(0, 8) =~= spec_u64_to_be_bytes(p.timestamp));
    assert(b.subrange(8, 12) =~= spec_u32_to_be_bytes(p.peak_height));
    assert(b.subrange(12, 14) =~= spec_u16_to_be_bytes(p.speed));
    assert(b.subrange(14, 18) =~= spec_u32_to_be_bytes(p.cycle));
    lemma_u64_be_bytes_round_trip(p.timestamp);
    lemma_u32_be_bytes_round_trip(p.peak_height);
    lemma_u16_be_bytes_round_trip(p.speed);
    lemma_u32_be_bytes_round_trip(p.cycle);
}

/// Decoding fewer than 18 bytes as a peak record reports exactly how
/// many bytes are missing, and never yields a value.
pub proof fn lemma_peak_truncated(b: Seq<u8>)
    requires
        b.len() < 18,
    ensures
        spec_peak_deserialized(b) == Err::<(MeasuredPeak, int), DeserializeError>(
            DeserializeError::BufferToShort((18 - b.len()) as usize),
        ),
{
}

} // verus!

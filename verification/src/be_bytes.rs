//! Big-endian byte encodings of the unsigned integer widths the wire
//! formats use, with executable readers/writers and round-trip lemmas.

use vstd::prelude::*;

verus! {

broadcast use vstd::seq_lib::group_seq_lib_default, vstd::seq::group_seq_axioms;

// ---------------------------------------------------------------------
// u16

pub open spec fn spec_u16_to_be_bytes(x: u16) -> Seq<u8> {
    seq![
        ((x >> 8) & 0xff) as u8,
        (x & 0xff) as u8,
    ]
}

pub open spec fn spec_u16_from_be_bytes(s: Seq<u8>) -> u16
    recommends
        s.len() == 2,
{
    ((s[0] as u16) << 8) | (s[1] as u16)
}

pub proof fn lemma_u16_be_bytes_round_trip(x: u16)
    ensures
        spec_u16_from_be_bytes(spec_u16_to_be_bytes(x)) == x,
{
    assert((((((x >> 8) & 0xff) as u8) as u16) << 8) | (((x & 0xff) as u8) as u16) == x)
        by (bit_vector);
}

pub proof fn lemma_u16_from_be_bytes_round_trip(s: Seq<u8>)
    requires
        s.len() == 2,
    ensures
        spec_u16_to_be_bytes(spec_u16_from_be_bytes(s)) == s,
{
    let b0 = s[0];
    let b1 = s[1];
    let x = spec_u16_from_be_bytes(s);
    assert(x == ((b0 as u16) << 8) | (b1 as u16) ==> (x >> 8) & 0xff == b0 && x & 0xff == b1)
        by (bit_vector);
    assert(spec_u16_to_be_bytes(x) =~= s);
}

// ---------------------------------------------------------------------
// u32

pub open spec fn spec_u32_to_be_bytes(x: u32) -> Seq<u8> {
    seq![
        ((x >> 24) & 0xff) as u8,
        ((x >> 16) & 0xff) as u8,
        ((x >> 8) & 0xff) as u8,
        (x & 0xff) as u8,
    ]
}

pub open spec fn spec_u32_from_be_bytes(s: Seq<u8>) -> u32
    recommends
        s.len() == 4,
{
    ((s[0] as u32) << 24) | ((s[1] as u32) << 16) | ((s[2] as u32) << 8) | (s[3] as u32)
}

pub proof fn lemma_u32_be_bytes_round_trip(x: u32)
    ensures
        spec_u32_from_be_bytes(spec_u32_to_be_bytes(x)) == x,
{
    assert(((((x >> 24) & 0xff) as u8) as u32) << 24
        | ((((x >> 16) & 0xff) as u8) as u32) << 16
        | ((((x >> 8) & 0xff) as u8) as u32) << 8
        | (((x & 0xff) as u8) as u32) == x) by (bit_vector);
}

pub proof fn lemma_u32_from_be_bytes_round_trip(s: Seq<u8>)
    requires
        s.len() == 4,
    ensures
        spec_u32_to_be_bytes(spec_u32_from_be_bytes(s)) == s,
{
    let b0 = s[0];
    let b1 = s[1];
    let b2 = s[2];
    let b3 = s[3];
    let x = spec_u32_from_be_bytes(s);
    assert(x == ((b0 as u32) << 24) | ((b1 as u32) << 16) | ((b2 as u32) << 8) | (b3 as u32)
        ==> (x >> 24) & 0xff == b0 && (x >> 16) & 0xff == b1 && (x >> 8) & 0xff == b2
            && x & 0xff == b3) by (bit_vector);
    assert(spec_u32_to_be_bytes(x) =~= s);
}

// ---------------------------------------------------------------------
// u64

pub open spec fn spec_u64_to_be_bytes(x: u64) -> Seq<u8> {
    seq![
        ((x >> 56) & 0xff) as u8,
        ((x >> 48) & 0xff) as u8,
        ((x >> 40) & 0xff) as u8,
        ((x >> 32) & 0xff) as u8,
        ((x >> 24) & 0xff) as u8,
        ((x >> 16) & 0xff) as u8,
        ((x >> 8) & 0xff) as u8,
        (x & 0xff) as u8,
    ]
}

pub open spec fn spec_u64_from_be_bytes(s: Seq<u8>) -> u64
    recommends
        s.len() == 8,
{
    ((s[0] as u64) << 56) | ((s[1] as u64) << 48) | ((s[2] as u64) << 40) | ((s[3] as u64)
        << 32) | ((s[4] as u64) << 24) | ((s[5] as u64) << 16) | ((s[6] as u64) << 8) | (
    s[7] as u64)
}

pub proof fn lemma_u64_be_bytes_round_trip(x: u64)
    ensures
        spec_u64_from_be_bytes(spec_u64_to_be_bytes(x)) == x,
{
    assert(((((x >> 56) & 0xff) as u8) as u64) << 56
        | ((((x >> 48) & 0xff) as u8) as u64) << 48
        | ((((x >> 40) & 0xff) as u8) as u64) << 40
        | ((((x >> 32) & 0xff) as u8) as u64) << 32
        | ((((x >> 24) & 0xff) as u8) as u64) << 24
        | ((((x >> 16) & 0xff) as u8) as u64) << 16
        | ((((x >> 8) & 0xff) as u8) as u64) << 8
        | (((x & 0xff) as u8) as u64) == x) by (bit_vector);
}

pub proof fn lemma_u64_from_be_bytes_round_trip(s: Seq<u8>)
    requires
        s.len() == 8,
    ensures
        spec_u64_to_be_bytes(spec_u64_from_be_bytes(s)) == s,
{
    let b0 = s[0];
    let b1 = s[1];
    let b2 = s[2];
    let b3 = s[3];
    let b4 = s[4];
    let b5 = s[5];
    let b6 = s[6];
    let b7 = s[7];
    let x = spec_u64_from_be_bytes(s);
    assert(x == ((b0 as u64) << 56) | ((b1 as u64) << 48) | ((b2 as u64) << 40) | ((b3 as u64)
        << 32) | ((b4 as u64) << 24) | ((b5 as u64) << 16) | ((b6 as u64) << 8) | (b7 as u64)
        ==> (x >> 56) & 0xff == b0 && (x >> 48) & 0xff == b1 && (x >> 40) & 0xff == b2
            && (x >> 32) & 0xff == b3 && (x >> 24) & 0xff == b4 && (x >> 16) & 0xff == b5
            && (x >> 8) & 0xff == b6 && x & 0xff == b7) by (bit_vector);
    assert(spec_u64_to_be_bytes(x) =~= s);
}

// ---------------------------------------------------------------------
// Executable writers: append the big-endian bytes of a value.

pub fn push_u16_be(out: &mut Vec<u8>, x: u16)
    ensures
        final(out)@ == old(out)@ + spec_u16_to_be_bytes(x),
{
    out.push(((x >> 8) & 0xff) as u8);
    out.push((x & 0xff) as u8);
    assert(final(out)@ =~= old(out)@ + spec_u16_to_be_bytes(x));
}

pub fn push_u32_be(out: &mut Vec<u8>, x: u32)
    ensures
        final(out)@ == old(out)@ + spec_u32_to_be_bytes(x),
{
    out.push(((x >> 24) & 0xff) as u8);
    out.push(((x >> 16) & 0xff) as u8);
    out.push(((x >> 8) & 0xff) as u8);
    out.push((x & 0xff) as u8);
    assert(final(out)@ =~= old(out)@ + spec_u32_to_be_bytes(x));
}

pub fn push_u64_be(out: &mut Vec<u8>, x: u64)
    ensures
        final(out)@ == old(out)@ + spec_u64_to_be_bytes(x),
{
    out.push(((x >> 56) & 0xff) as u8);
    out.push(((x >> 48) & 0xff) as u8);
    out.push(((x >> 40) & 0xff) as u8);
    out.push(((x >> 32) & 0xff) as u8);
    out.push(((x >> 24) & 0xff) as u8);
    out.push(((x >> 16) & 0xff) as u8);
    out.push(((x >> 8) & 0xff) as u8);
    out.push((x & 0xff) as u8);
    assert(final(out)@ =~= old(out)@ + spec_u64_to_be_bytes(x));
}

// ---------------------------------------------------------------------
// Executable readers: decode the big-endian bytes found at an offset.

pub fn read_u16_be(buffer: &[u8], offset: usize) -> (x: u16)
    requires
        offset + 2 <= buffer@.len(),
    ensures
        x == spec_u16_from_be_bytes(buffer@.subrange(offset as int, offset as int + 2)),
{
    let x = ((buffer[offset] as u16) << 8) | (buffer[offset + 1] as u16);
    proof {
        let s = buffer@.subrange(offset as int, offset as int + 2);
        assert(s[0] == buffer@[offset as int] && s[1] == buffer@[offset as int + 1]);
    }
    x
}

pub fn read_u32_be(buffer: &[u8], offset: usize) -> (x: u32)
    requires
        offset + 4 <= buffer@.len(),
    ensures
        x == spec_u32_from_be_bytes(buffer@.subrange(offset as int, offset as int + 4)),
{
    let x = ((buffer[offset] as u32) << 24) | ((buffer[offset + 1] as u32) << 16) | ((buffer[offset
        + 2] as u32) << 8) | (buffer[offset + 3] as u32);
    proof {
        let s = buffer@.subrange(offset as int, offset as int + 4);
        assert(s[0] == buffer@[offset as int] && s[1] == buffer@[offset as int + 1]
            && s[2] == buffer@[offset as int + 2] && s[3] == buffer@[offset as int + 3]);
    }
    x
}

pub fn read_u64_be(buffer: &[u8], offset: usize) -> (x: u64)
    requires
        offset + 8 <= buffer@.len(),
    ensures
        x == spec_u64_from_be_bytes(buffer@.subrange(offset as int, offset as int + 8)),
{
    let x = ((buffer[offset] as u64) << 56) | ((buffer[offset + 1] as u64) << 48) | ((buffer[offset
        + 2] as u64) << 40) | ((buffer[offset + 3] as u64) << 32) | ((buffer[offset + 4] as u64)
        << 24) | ((buffer[offset + 5] as u64) << 16) | ((buffer[offset + 6] as u64) << 8) | (
    buffer[offset + 7] as u64);
    proof {
        let s = buffer@.subrange(offset as int, offset as int + 8);
        assert(s[0] == buffer@[offset as int] && s[1] == buffer@[offset as int + 1]
            && s[2] == buffer@[offset as int + 2] && s[3] == buffer@[offset as int + 3]
            && s[4] == buffer@[offset as int + 4] && s[5] == buffer@[offset as int + 5]
            && s[6] == buffer@[offset as int + 6] && s[7] == buffer@[offset as int + 7]);
    }
    x
}

} // verus!

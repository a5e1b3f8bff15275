//! Lowercase hexadecimal rendering of byte strings, for the diagnostic
//! dump of a measured peak.

use vstd::prelude::*;

verus! {

/// The lowercase hexadecimal digit for a value below 16: `'0'`..`'9'`
/// then `'a'`..`'f'`.
pub open spec fn spec_hex_digit(v: u8) -> char
    recommends
        v < 16,
{
    if v < 10 {
        (v + 0x30) as char
    } else {
        (v + 0x57) as char
    }
}

/// Two lowercase hexadecimal digits per byte, high nibble first.
pub open spec fn spec_hex_bytes(s: Seq<u8>) -> Seq<char>
    decreases s.len(),
{
    if s.len() == 0 {
        Seq::empty()
    } else {
        seq![spec_hex_digit(s[0] / 16), spec_hex_digit(s[0] % 16)] + spec_hex_bytes(
            s.drop_first(),
        )
    }
}

/// Relies on `hex::encode`: it renders each input byte as two lowercase
/// hexadecimal digits, high nibble first, from the table
/// `0123456789abcdef`.
#[verifier::external_body]
pub(crate) fn hex_encode(data: &[u8]) -> (r: String)
    ensures
        r@ == spec_hex_bytes(data@),
{
    hex::encode(data)
}

} // verus!

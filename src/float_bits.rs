//! The three bit fields of an IEEE-754 single-precision value, taken from its
//! 32-bit pattern.
use vstd::prelude::*;

verus! {

/// Splits `bits` into its sign bit (bit 31), its biased exponent (bits 30 to
/// 23) and its fraction (bits 22 to 0).
pub fn to_parts(bits: u32) -> (r: (u32, u32, u32))
    ensures
        r.0 == bits / 0x8000_0000,
        r.1 == (bits / 0x80_0000) % 256,
        r.2 == bits % 0x80_0000,
        r.0 * 0x8000_0000 + r.1 * 0x80_0000 + r.2 == bits,
{
    let sign = bits >> 31u32;
    let exponent = (bits >> 23u32) & 0xff;
    let fraction = bits & 0x7f_ffff;
    assert(bits >> 31u32 == bits / 0x8000_0000) by (bit_vector);
    assert((bits >> 23u32) & 0xff == (bits / 0x80_0000) % 256) by (bit_vector);
    assert(bits & 0x7f_ffff == bits % 0x80_0000) by (bit_vector);
    (sign, exponent, fraction)
}

} // verus!

use vstd::prelude::*;

verus! {

/// The sign bit of a single-precision bit pattern.
pub const SIGN_BIT: u32 = 0x8000_0000;

/// The bit pattern of zero, and of each component of black.
pub const ZERO: u32 = 0;

/// One vertex of the output. Every component is the bit pattern of a
/// single-precision number.
#[derive(Clone, Copy, Debug, PartialEq, Eq)]
pub struct Element {
    pub position: [u32; 3],
    pub normal: [u32; 3],
    pub color: [u32; 3],
}

/// The bit pattern of `-x`, given the bit pattern of `x`: the sign bit is
/// inverted and the other 31 bits stay.
pub open spec fn negated(bits: u32) -> u32 {
    if bits < SIGN_BIT {
        (bits + SIGN_BIT) as u32
    } else {
        (bits - SIGN_BIT) as u32
    }
}

/// A triple as it is stored: the first component negated, the other two kept.
pub open spec fn mirrored(raw: [u32; 3]) -> [u32; 3] {
    [negated(raw[0]), raw[1], raw[2]]
}

/// The colour of a material that has no diffuse line yet.
pub open spec fn black() -> [u32; 3] {
    [ZERO, ZERO, ZERO]
}

/// Negates a number, given and returned as a bit pattern.
pub fn negate(bits: u32) -> (r: u32)
    ensures
        r == negated(bits),
{
    assert(bits ^ 0x8000_0000u32 == if bits < 0x8000_0000u32 {
        (bits + 0x8000_0000u32) as u32
    } else {
        (bits - 0x8000_0000u32) as u32
    }) by (bit_vector);
    bits ^ SIGN_BIT
}

/// Negates the first component of a triple and keeps the other two.
pub fn mirror(raw: [u32; 3]) -> (r: [u32; 3])
    ensures
        r == mirrored(raw),
{
    [negate(raw[0]), raw[1], raw[2]]
}

/// Negating twice gives the pattern back.
pub proof fn law_negated_twice(bits: u32)
    ensures
        negated(negated(bits)) == bits,
{
}

/// Negation inverts the sign bit and changes no other bit.
pub proof fn law_negated_bits(bits: u32)
    ensures
        negated(bits) == bits ^ SIGN_BIT,
        negated(bits) & 0x7fff_ffffu32 == bits & 0x7fff_ffffu32,
        (negated(bits) & SIGN_BIT == 0) != (bits & SIGN_BIT == 0),
{
    assert(bits ^ 0x8000_0000u32 == if bits < 0x8000_0000u32 {
        (bits + 0x8000_0000u32) as u32
    } else {
        (bits - 0x8000_0000u32) as u32
    }) by (bit_vector);
    assert((bits ^ 0x8000_0000u32) & 0x7fff_ffffu32 == bits & 0x7fff_ffffu32) by (bit_vector);
    assert(((bits ^ 0x8000_0000u32) & 0x8000_0000u32 == 0) != (bits & 0x8000_0000u32 == 0))
        by (bit_vector);
}

} // verus!
